//! The services of a process: how it ends, its modules, its environment, its time
//! and its start-up.

use vstd::prelude::*;

use crate::api::{FALSE, TRUE};
use crate::call::{
    answer_after, answer_stores, arg, arg_at, args, args_at, faulted, Outcome, Reply,
};
use crate::cb::{advanced, initterm_started, initterm_stepped};
use crate::cpu::{CpuState, CpuView, Reg};
use crate::env::env_units;
use crate::fs::{zero_bytes, zeros};
use crate::gstr::{
    byte_stores, byte_table, guest_text, lemma_wrapped_double, read_text, unit_stores, unit_table,
};
use crate::host::HostReply;
use crate::loader::{
    all_departed, base_name, canonical_name, exit_targets, host_name, module_name, LoaderView,
};
use crate::mem::{
    at, ga, opt, push_opt, s16, s32, s64, store16, store32, store64, Fault, MemView,
    Store, VirtualMemory,
};
use crate::ntreg::finish;
use crate::os::{
    entry_calls, make_entry_calls, OsOut, OsReply, OsView, WinOs, DLL_PROCESS_ATTACH,
    DLL_PROCESS_DETACH,
};
use crate::plugin::{proc_out, PluginLoad};
use crate::serve::{answered, exited, failed, outcome_of, replied, returning};
use crate::text::chars_of;
use crate::unixlib::unix_call_out;

verus! {

/// The code page of narrow texts: UTF-8.
pub const CODE_PAGE: u64 = 65001;

/// The version that is reported: 6.2, build 9200.
pub const VERSION: u64 = 0x23F0_0206;

// ---- the end ----------------------------------------------------------------

/// `ExitProcess`: the loaded images are told of the end first, the last loaded
/// first.
#[verifier::opaque]
pub open spec fn exit_process_out(v: OsView, c: CpuView, m: MemView) -> OsOut {
    match arg_at(v.wide(), c, m, 0) {
        Err(f) => failed(v, c, m, f),
        Ok(a) => {
            let code = (a as u32) as i32;
            let targets = exit_targets(v.dll.modules);
            let w = OsView {
                dll: LoaderView { modules: all_departed(v.dll.modules), ..v.dll },
                ..v
            };
            if targets.len() == 0 {
                exited(w, c, m, code)
            } else {
                OsView { pending_exit: Some(code), ..w }.calling(
                    c,
                    m,
                    entry_calls(targets, DLL_PROCESS_DETACH),
                    0,
                    1,
                    false,
                )
            }
        },
    }
}

/// A call that ends the process at once, with the code in argument `i`.
#[verifier::opaque]
pub open spec fn exit_now_out(v: OsView, c: CpuView, m: MemView, i: u64) -> OsOut {
    match arg_at(v.wide(), c, m, i) {
        Err(f) => failed(v, c, m, f),
        Ok(a) => exited(v, c, m, (a as u32) as i32),
    }
}

impl WinOs {
    /// Serve `ExitProcess`.
    pub fn exit_process(&mut self, cpu: &mut CpuState, mem: &mut VirtualMemory) -> (r: Result<
        Outcome,
        Fault,
    >)
        requires
            old(self).wf(),
        ensures
            final(self).wf(),
            final(self).thunks == old(self).thunks,
            (OsOut { os: final(self)@, cpu: final(cpu)@, mem: final(mem)@, r }) == exit_process_out(
                old(self)@,
                old(cpu)@,
                old(mem)@,
            ),
    {
        proof {
            reveal(exit_process_out);
        }
        let code: i32 = match arg(self.cfg.is_64bit, cpu, mem, 0) {
            Ok(a) => (a as u32) as i32,
            Err(f) => {
                return Err(f);
            },
        };
        let targets = self.dll.take_process_detach_targets();
        if targets.len() == 0 {
            return Ok(Outcome::Exit(code));
        }
        self.pending_exit = Some(code);
        let calls = make_entry_calls(&targets, DLL_PROCESS_DETACH);
        self.invoke(cpu, mem, calls, 0, 1, false)
    }

    /// Serve the calls that end the process at once.
    pub fn exit_now(&mut self, cpu: &mut CpuState, mem: &mut VirtualMemory, i: u64) -> (r: Result<
        Outcome,
        Fault,
    >)
        requires
            old(self).wf(),
            i < 64,
        ensures
            final(self).wf(),
            final(self).thunks == old(self).thunks,
            (OsOut { os: final(self)@, cpu: final(cpu)@, mem: final(mem)@, r }) == exit_now_out(
                old(self)@,
                old(cpu)@,
                old(mem)@,
                i,
            ),
    {
        proof {
            reveal(exit_now_out);
        }
        match arg(self.cfg.is_64bit, cpu, mem, i) {
            Ok(a) => Ok(Outcome::Exit((a as u32) as i32)),
            Err(f) => Err(f),
        }
    }
}

// ---- modules ----------------------------------------------------------------

/// The text that a pointer leads to; none for null.
pub open spec fn text_or_none(m: MemView, p: u64, wide: bool) -> Result<Seq<char>, Fault> {
    if p == 0 {
        Ok(Seq::empty())
    } else {
        guest_text(m, p, wide)
    }
}

/// The text that a pointer leads to; none for null.
fn read_or_none(mem: &VirtualMemory, p: u64, wide: bool) -> (r: Result<String, Fault>)
    ensures
        match r {
            Ok(s) => text_or_none(mem@, p, wide) == Ok::<Seq<char>, Fault>(s@),
            Err(f) => text_or_none(mem@, p, wide) == Err::<Seq<char>, Fault>(f),
        },
{
    if p == 0 {
        let none: Vec<char> = Vec::new();
        assert(none@ =~= Seq::<char>::empty());
        return Ok(crate::text::string_of(&none));
    }
    read_text(mem, p, wide)
}

/// The name that a library is known by.
pub open spec fn library_name(path: Seq<char>, host: Option<Seq<char>>) -> Seq<char> {
    host_name(module_name(path), host)
}

/// The name that a library is known by.
pub fn name_library(path: &str, host: &HostReply) -> (r: String)
    ensures
        r@ == library_name(path@, host.spec_host()),
{
    let base = base_name(path);
    match host {
        HostReply::Library { host: Some(h), .. } => canonical_name(base.as_str(), Some(h.as_str())),
        _ => canonical_name(base.as_str(), None),
    }
}

/// `GetModuleHandle`: the image itself for no name, else the known or emulated
/// library.
#[verifier::opaque]
pub open spec fn module_handle_out(
    v: OsView,
    c: CpuView,
    m: MemView,
    wide: bool,
    host: HostReply,
) -> OsReply {
    match arg_at(v.wide(), c, m, 0) {
        Err(f) => OsReply { os: v, mem: m, r: Err(f) },
        Ok(p) => if p == 0 {
            OsReply { os: v, mem: m, r: Ok(v.cfg.image_base) }
        } else {
            match guest_text(m, p, wide) {
                Err(f) => OsReply { os: v, mem: m, r: Err(f) },
                Ok(path) => {
                    let h = v.dll.module_handle(library_name(path, host.spec_host()));
                    OsReply { os: OsView { dll: h.dll, ..v }, mem: m, r: Ok(h.handle) }
                },
            }
        },
    }
}

/// Whether a library has to be loaded: it has a name and is neither known nor
/// emulated.
pub open spec fn wants_load(v: OsView, path: Seq<char>, host: Option<Seq<char>>) -> bool {
    path.len() > 0 && v.dll.library(library_name(path, host)) is None
}

/// `LoadLibrary`: the image itself for no name, a known or emulated library, or
/// the one that was loaded; then the entry points of what was loaded are told.
#[verifier::opaque]
pub open spec fn load_library_out(
    v: OsView,
    c: CpuView,
    m: MemView,
    wide: bool,
    argc: u32,
    host: HostReply,
) -> OsOut {
    match arg_at(v.wide(), c, m, 0) {
        Err(f) => failed(v, c, m, f),
        Ok(p) => match text_or_none(m, p, wide) {
            Err(f) => failed(v, c, m, f),
            Ok(path) => if path.len() == 0 {
                answered(v, c, m, v.cfg.image_base)
            } else {
                match host.spec_loaded() {
                    Some(base) => if base == 0 {
                        answered(v, c, m, 0)
                    } else {
                        v.attached_with(c, m, base, argc)
                    },
                    None => match v.dll.library(library_name(path, host.spec_host())) {
                        Some(h) => answered(OsView { dll: h.dll, ..v }, c, m, h.handle),
                        None => answered(v, c, m, 0),
                    },
                }
            },
        },
    }
}

/// `FreeLibrary`: whether the handle is known; the entry point of an image that
/// nobody holds any more is told.
#[verifier::opaque]
pub open spec fn free_library_out(v: OsView, c: CpuView, m: MemView) -> OsOut {
    match arg_at(v.wide(), c, m, 0) {
        Err(f) => failed(v, c, m, f),
        Ok(h) => {
            let g = v.dll.released(v.cfg.image_base, h);
            let w = OsView { dll: LoaderView { pending_detach: Seq::empty(), ..g.dll }, ..v };
            w.calling(
                c,
                m,
                entry_calls(g.dll.pending_detach, DLL_PROCESS_DETACH),
                if g.ok {
                    TRUE
                } else {
                    FALSE
                },
                1,
                false,
            )
        },
    }
}

impl OsView {
    /// What telling the entry points of what was loaded leads to, behind which the
    /// call answers with `handle`.
    pub open spec fn attached_with(self, c: CpuView, m: MemView, handle: u64, argc: u32) -> OsOut {
        let pending = self.dll.pending_attach;
        let w = OsView {
            dll: LoaderView { pending_attach: Seq::empty(), ..self.dll }.attached(pending),
            ..self
        };
        w.calling(c, m, entry_calls(pending, DLL_PROCESS_ATTACH), handle, argc, false)
    }
}

impl WinOs {
    /// Serve `GetModuleHandle`.
    pub fn get_module_handle(
        &mut self,
        cpu: &CpuState,
        mem: &VirtualMemory,
        wide: bool,
        host: &HostReply,
    ) -> (r: Result<u64, Fault>)
        requires
            old(self).wf(),
            old(self).has_room(),
        ensures
            final(self).wf(),
            final(self).thunks == old(self).thunks,
            (OsReply { os: final(self)@, mem: mem@, r }) == module_handle_out(
                old(self)@,
                cpu@,
                mem@,
                wide,
                *host,
            ),
    {
        proof {
            reveal(module_handle_out);
        }
        let p: u64 = match arg(self.cfg.is_64bit, cpu, mem, 0) {
            Ok(p) => p,
            Err(f) => {
                return Err(f);
            },
        };
        if p == 0 {
            return Ok(self.cfg.image_base);
        }
        let path = match read_text(mem, p, wide) {
            Ok(s) => s,
            Err(f) => {
                return Err(f);
            },
        };
        let name = name_library(path.as_str(), host);
        Ok(self.dll.module_handle(name.as_str()))
    }

    /// Start loading a library where it has to be loaded.
    pub fn begin_library(&mut self, path: &str, host: &HostReply) -> (r: Option<PluginLoad>)
        requires
            old(self).wf(),
        ensures
            final(self).wf(),
            final(self).thunks == old(self).thunks,
            match r {
                Some(l) => {
                    &&& wants_load(old(self)@, path@, host.spec_host())
                    &&& final(self)@ == (OsView {
                        dll: LoaderView { pending_attach: Seq::empty(), ..old(self)@.dll },
                        ..old(self)@
                    })
                    &&& l@.wf()
                    &&& l@ == crate::plugin::started(
                        final(self)@.dll,
                        path@,
                        library_name(path@, host.spec_host()),
                        false,
                    )
                },
                None => !wants_load(old(self)@, path@, host.spec_host()) && final(self)@ == old(
                    self,
                )@,
            },
    {
        let cs = chars_of(path);
        if cs.len() == 0 {
            return None;
        }
        let name = name_library(path, host);
        if self.dll.by_name.contains_key(name.as_str()) || crate::loader::emulated(name.as_str()) {
            return None;
        }
        self.dll.pending_attach.clear();
        assert(self.dll.pending_attach@ =~= Seq::empty());
        Some(PluginLoad::load_plugin(&self.dll, path, name.as_str(), false))
    }

    /// Tell the entry points of what was loaded, then answer with `handle`.
    fn attach_with(
        &mut self,
        cpu: &mut CpuState,
        mem: &mut VirtualMemory,
        handle: u64,
        argc: u32,
    ) -> (r: Result<Outcome, Fault>)
        requires
            old(self).wf(),
        ensures
            final(self).wf(),
            final(self).thunks == old(self).thunks,
            (OsOut { os: final(self)@, cpu: final(cpu)@, mem: final(mem)@, r }) == old(
                self,
            )@.attached_with(old(cpu)@, old(mem)@, handle, argc),
    {
        let mut pending: Vec<(u64, u64)> = Vec::new();
        std::mem::swap(&mut pending, &mut self.dll.pending_attach);
        self.dll.mark_attached(&pending);
        let calls = make_entry_calls(&pending, DLL_PROCESS_ATTACH);
        self.invoke(cpu, mem, calls, handle, argc, false)
    }

    /// Serve `LoadLibrary`.
    pub fn load_library(
        &mut self,
        cpu: &mut CpuState,
        mem: &mut VirtualMemory,
        wide: bool,
        argc: u32,
        host: &HostReply,
    ) -> (r: Result<Outcome, Fault>)
        requires
            old(self).wf(),
            old(self).has_room(),
        ensures
            final(self).wf(),
            final(self).thunks == old(self).thunks,
            (OsOut { os: final(self)@, cpu: final(cpu)@, mem: final(mem)@, r }) == load_library_out(
                old(self)@,
                old(cpu)@,
                old(mem)@,
                wide,
                argc,
                *host,
            ),
    {
        proof {
            reveal(load_library_out);
        }
        let p: u64 = match arg(self.cfg.is_64bit, cpu, mem, 0) {
            Ok(p) => p,
            Err(f) => {
                return Err(f);
            },
        };
        let path = match read_or_none(mem, p, wide) {
            Ok(s) => s,
            Err(f) => {
                return Err(f);
            },
        };
        let cs = chars_of(path.as_str());
        if cs.len() == 0 {
            return Ok(Outcome::Return(self.cfg.image_base));
        }
        match host.loaded() {
            Some(base) => {
                if base == 0 {
                    return Ok(Outcome::Return(0));
                }
                return self.attach_with(cpu, mem, base, argc);
            },
            None => {},
        }
        let name = name_library(path.as_str(), host);
        match self.dll.library(name.as_str()) {
            Some(h) => Ok(Outcome::Return(h)),
            None => Ok(Outcome::Return(0)),
        }
    }

    /// Serve `FreeLibrary`.
    pub fn release_library(&mut self, cpu: &mut CpuState, mem: &mut VirtualMemory) -> (r: Result<
        Outcome,
        Fault,
    >)
        requires
            old(self).wf(),
        ensures
            final(self).wf(),
            final(self).thunks == old(self).thunks,
            (OsOut { os: final(self)@, cpu: final(cpu)@, mem: final(mem)@, r }) == free_library_out(
                old(self)@,
                old(cpu)@,
                old(mem)@,
            ),
    {
        proof {
            reveal(free_library_out);
        }
        let h: u64 = match arg(self.cfg.is_64bit, cpu, mem, 0) {
            Ok(h) => h,
            Err(f) => {
                return Err(f);
            },
        };
        let ok: bool = self.dll.free_library(self.cfg.image_base, h);
        let mut pending: Vec<(u64, u64)> = Vec::new();
        std::mem::swap(&mut pending, &mut self.dll.pending_detach);
        let calls = make_entry_calls(&pending, DLL_PROCESS_DETACH);
        self.invoke(
            cpu,
            mem,
            calls,
            if ok {
                TRUE
            } else {
                FALSE
            },
            1,
            false,
        )
    }
}

// ---- start-up ---------------------------------------------------------------

/// The stores of the start-up record: 104 zero bytes, and its size.
pub open spec fn startup_table(p: u64) -> Seq<Store> {
    if p == 0 {
        Seq::empty()
    } else {
        byte_table(p, zeros(104)) + seq![s32(p, 104)]
    }
}

/// `GetStartupInfo`.
#[verifier::opaque]
pub open spec fn startup_reply(is_64bit: bool, c: CpuView, m: MemView) -> Reply {
    match arg_at(is_64bit, c, m, 0) {
        Err(f) => faulted(m, f),
        Ok(p) => answer_stores(m, startup_table(p), 0),
    }
}

/// Serve `GetStartupInfo`.
pub fn get_startup_info(is_64bit: bool, cpu: &CpuState, mem: &mut VirtualMemory) -> (r: Result<
    u64,
    Fault,
>)
    ensures
        final(mem)@ == startup_reply(is_64bit, cpu@, old(mem)@).mem,
        r == startup_reply(is_64bit, cpu@, old(mem)@).r,
{
    proof {
        reveal(startup_reply);
    }
    let p: u64 = match arg(is_64bit, cpu, mem, 0) {
        Ok(p) => p,
        Err(f) => {
            return Err(f);
        },
    };
    let mut t: Vec<Store> = Vec::new();
    if p != 0 {
        let z = zero_bytes(104);
        t = byte_stores(p, &z);
        t.push(store32(p, 104));
    }
    assert(t@ =~= startup_table(p));
    finish(mem, &t, 0)
}

/// The stores of the version record.
pub open spec fn version_table(p: u64) -> Seq<Store> {
    if p == 0 {
        Seq::empty()
    } else {
        seq![
            s32(ga(p, 4), 6),
            s32(ga(p, 8), 2),
            s32(ga(p, 12), 9200),
            s32(ga(p, 16), 2),
            s16(ga(p, 20), 0),
        ]
    }
}

/// `GetVersionEx`.
#[verifier::opaque]
pub open spec fn version_reply(is_64bit: bool, c: CpuView, m: MemView) -> Reply {
    match arg_at(is_64bit, c, m, 0) {
        Err(f) => faulted(m, f),
        Ok(p) => answer_stores(m, version_table(p), TRUE),
    }
}

/// Serve `GetVersionEx`.
pub fn get_version_ex(is_64bit: bool, cpu: &CpuState, mem: &mut VirtualMemory) -> (r: Result<
    u64,
    Fault,
>)
    ensures
        final(mem)@ == version_reply(is_64bit, cpu@, old(mem)@).mem,
        r == version_reply(is_64bit, cpu@, old(mem)@).r,
{
    proof {
        reveal(version_reply);
    }
    let p: u64 = match arg(is_64bit, cpu, mem, 0) {
        Ok(p) => p,
        Err(f) => {
            return Err(f);
        },
    };
    let t: Vec<Store> = if p != 0 {
        vec![
            store32(at(p, 4), 6),
            store32(at(p, 8), 2),
            store32(at(p, 12), 9200),
            store32(at(p, 16), 2),
            store16(at(p, 20), 0),
        ]
    } else {
        Vec::new()
    };
    assert(t@ =~= version_table(p));
    finish(mem, &t, TRUE)
}

/// `GetEnvironmentStringsW`: the environment as a fresh block, or 0 where the heap
/// is exhausted.
#[verifier::opaque]
pub open spec fn environment_out(v: OsView, m: MemView) -> OsReply {
    let units = env_units(v.env);
    let size = ga(0, (2 * units.len()) as int);
    let p = v.fresh_block(size);
    let w = v.heap_asked(size);
    if p == 0 {
        OsReply { os: w, mem: m, r: Ok(0) }
    } else {
        let o = answer_stores(m, unit_table(p, units), p);
        OsReply { os: w, mem: o.mem, r: o.r }
    }
}

/// The stores of the arguments of `main`: the command line as its only argument.
pub open spec fn main_table(argv: u64, cmdline: u64, argc_ptr: u64, argv_ptr: u64) -> Seq<Store> {
    (if argv != 0 {
        seq![s64(argv, cmdline), s64(ga(argv, 8), 0)]
    } else {
        Seq::empty()
    }) + opt(s32(argc_ptr, 1)) + opt(s64(argv_ptr, argv))
}

/// `__getmainargs`: one argument, and an empty environment where one is asked for.
#[verifier::opaque]
pub open spec fn main_args_out(v: OsView, c: CpuView, m: MemView) -> OsReply {
    match args_at(v.wide(), c, m, seq![0, 1, 2]) {
        Err(f) => OsReply { os: v, mem: m, r: Err(f) },
        Ok(a) => {
            let argv = v.fresh_block(16);
            let w = v.heap_asked(16);
            let s = m.store_all(main_table(argv, v.cfg.cmdline_ptr_a, a[0], a[1]));
            match s.fault {
                Some(f) => OsReply { os: w, mem: s.mem, r: Err(f) },
                None => if a[2] == 0 {
                    OsReply { os: w, mem: s.mem, r: Ok(0) }
                } else {
                    let o = answer_after(s.mem.store(s64(a[2], w.fresh_block(8))), 0);
                    OsReply { os: w.heap_asked(8), mem: o.mem, r: o.r }
                },
            }
        },
    }
}

impl WinOs {
    /// Serve `GetEnvironmentStringsW`.
    pub fn get_environment_strings(&mut self, mem: &mut VirtualMemory) -> (r: Result<u64, Fault>)
        requires
            old(self).wf(),
        ensures
            final(self).wf(),
            final(self).thunks == old(self).thunks,
            (OsReply { os: final(self)@, mem: final(mem)@, r }) == environment_out(
                old(self)@,
                old(mem)@,
            ),
    {
        proof {
            reveal(environment_out);
        }
        let units = self.env.env_block_utf16();
        let n: u64 = units.len() as u64;
        let size: u64 = at(0, n.wrapping_mul(2));
        proof {
            lemma_wrapped_double(0, n);
        }
        let p: u64 = self.heap_alloc(size);
        if p == 0 {
            return Ok(0);
        }
        let t = unit_stores(p, &units);
        finish(mem, &t, p)
    }

    /// Serve `__getmainargs`.
    pub fn get_main_args(&mut self, cpu: &CpuState, mem: &mut VirtualMemory) -> (r: Result<u64, Fault>)
        requires
            old(self).wf(),
        ensures
            final(self).wf(),
            final(self).thunks == old(self).thunks,
            (OsReply { os: final(self)@, mem: final(mem)@, r }) == main_args_out(
                old(self)@,
                cpu@,
                old(mem)@,
            ),
    {
        proof {
            reveal(main_args_out);
        }
        let list: Vec<u64> = vec![0, 1, 2];
        assert(list@ =~= seq![0u64, 1, 2]);
        let a = match args(self.cfg.is_64bit, cpu, mem, &list) {
            Ok(a) => a,
            Err(f) => {
                return Err(f);
            },
        };
        let argv: u64 = self.heap_alloc(16);
        let cmdline: u64 = self.cfg.cmdline_ptr_a;
        let mut t: Vec<Store> = Vec::new();
        if argv != 0 {
            t.push(store64(argv, cmdline));
            t.push(store64(at(argv, 8), 0));
        }
        push_opt(&mut t, store32(a[0], 1));
        push_opt(&mut t, store64(a[1], argv));
        assert(t@ =~= main_table(argv, cmdline, a@[0], a@[1]));
        match finish(mem, &t, 0) {
            Ok(_) => {},
            Err(f) => {
                return Err(f);
            },
        }
        if a[2] == 0 {
            return Ok(0);
        }
        let env: u64 = self.heap_alloc(8);
        match mem.store(store64(a[2], env)) {
            Ok(_) => Ok(0),
            Err(f) => Err(f),
        }
    }
}

// ---- drivers ----------------------------------------------------------------

/// `_initterm`.
#[verifier::opaque]
pub open spec fn initterm_out(v: OsView, c: CpuView, m: MemView) -> OsOut {
    match args_at(v.wide(), c, m, seq![0, 1]) {
        Err(f) => failed(v, c, m, f),
        Ok(a) => {
            let o = initterm_started(v.drivers.initterm, v.inits, c, m, a[0], a[1]);
            OsOut { os: OsView { inits: o.0, ..v }, cpu: o.1, mem: o.2, r: o.3 }
        },
    }
}

/// What follows an initializer that returned.
pub open spec fn initterm_next_out(v: OsView, c: CpuView, m: MemView) -> OsOut {
    let o = initterm_stepped(v.drivers.initterm, v.inits, c, m);
    OsOut { os: OsView { inits: o.0, ..v }, cpu: o.1, mem: o.2, r: o.3 }
}

/// What follows a callback that returned.
#[verifier::opaque]
pub open spec fn callback_next_out(v: OsView, c: CpuView, m: MemView, host: HostReply) -> OsOut {
    let a = advanced(
        v.drivers.callback,
        v.cbs,
        v.dialog,
        v.pending_exit,
        host.spec_event(),
        v.wide(),
        c,
        m,
    );
    OsOut { os: OsView { cbs: a.stack, dialog: a.dialog, ..v }, cpu: a.cpu, mem: a.mem, r: a.r }
}

/// A call of a host half: a thread that was blocked is not returned to.
#[verifier::opaque]
pub open spec fn unix_out(v: OsView, c: CpuView, m: MemView) -> OsOut {
    let o = unix_call_out(
        v,
        c,
        m,
        c.reg(Reg::Rcx),
        c.reg(Reg::Rdx) as u32,
        c.reg(Reg::R8),
    );
    OsOut {
        os: o.os,
        cpu: o.cpu,
        mem: o.mem,
        r: if o.r is Ok && o.os.unix_call_blocked {
            Ok(Outcome::Resume)
        } else {
            outcome_of(o.r)
        },
    }
}

/// `GetProcAddress`.
#[verifier::opaque]
pub open spec fn get_proc_out(v: OsView, c: CpuView, m: MemView) -> OsOut {
    match args_at(v.wide(), c, m, seq![0, 1]) {
        Err(f) => failed(v, c, m, f),
        Ok(a) => {
            let o = proc_out(v.cfg, v.dll, v.thunks, m, a[0], a[1]);
            replied(OsView { thunks: o.thunks, ..v }, c, o.reply)
        },
    }
}

impl WinOs {
    /// Serve `_initterm`.
    pub fn run_initializers(&mut self, cpu: &mut CpuState, mem: &mut VirtualMemory) -> (r: Result<
        Outcome,
        Fault,
    >)
        requires
            old(self).wf(),
        ensures
            final(self).wf(),
            final(self).thunks == old(self).thunks,
            (OsOut { os: final(self)@, cpu: final(cpu)@, mem: final(mem)@, r }) == initterm_out(
                old(self)@,
                old(cpu)@,
                old(mem)@,
            ),
    {
        proof {
            reveal(initterm_out);
        }
        let list: Vec<u64> = vec![0, 1];
        assert(list@ =~= seq![0u64, 1]);
        let a = match args(self.cfg.is_64bit, cpu, mem, &list) {
            Ok(a) => a,
            Err(f) => {
                return Err(f);
            },
        };
        self.inits.initterm(cpu, mem, a[0], a[1])
    }

    /// Go on after an initializer has returned.
    pub fn next_initializer(&mut self, cpu: &mut CpuState, mem: &mut VirtualMemory) -> (r: Result<
        Outcome,
        Fault,
    >)
        requires
            old(self).wf(),
            old(self).inits.stack.len() > 0,
        ensures
            final(self).wf(),
            final(self).thunks == old(self).thunks,
            (OsOut { os: final(self)@, cpu: final(cpu)@, mem: final(mem)@, r }) == initterm_next_out(
                old(self)@,
                old(cpu)@,
                old(mem)@,
            ),
    {
        self.inits.initterm_advance(cpu, mem)
    }

    /// Go on after a callback has returned.
    pub fn next_callback(
        &mut self,
        cpu: &mut CpuState,
        mem: &mut VirtualMemory,
        host: &HostReply,
    ) -> (r: Result<Outcome, Fault>)
        requires
            old(self).wf(),
            old(self).cbs.stack.len() > 0,
        ensures
            final(self).wf(),
            final(self).thunks == old(self).thunks,
            (OsOut { os: final(self)@, cpu: final(cpu)@, mem: final(mem)@, r }) == callback_next_out(
                old(self)@,
                old(cpu)@,
                old(mem)@,
                *host,
            ),
    {
        proof {
            reveal(callback_next_out);
        }
        let exiting: Option<i32> = self.pending_exit;
        let event = host.event();
        self.cbs.cb_advance(self.cfg.is_64bit, cpu, mem, &mut self.dialog, exiting, event)
    }

    /// Serve a call of a host half that came through its thunk.
    pub fn serve_unix_call(&mut self, cpu: &mut CpuState, mem: &mut VirtualMemory) -> (r: Result<
        Outcome,
        Fault,
    >)
        requires
            old(self).wf(),
            old(self).has_room(),
        ensures
            final(self).wf(),
            final(self).thunks == old(self).thunks,
            (OsOut { os: final(self)@, cpu: final(cpu)@, mem: final(mem)@, r }) == unix_out(
                old(self)@,
                old(cpu)@,
                old(mem)@,
            ),
    {
        proof {
            reveal(unix_out);
        }
        match self.wine_unix_call(cpu, mem) {
            Ok(s) => if self.unix_call_blocked {
                Ok(Outcome::Resume)
            } else {
                Ok(Outcome::Return(s))
            },
            Err(f) => Err(f),
        }
    }

    /// Serve `GetProcAddress`.
    pub fn find_procedure(&mut self, cpu: &mut CpuState, mem: &mut VirtualMemory) -> (r: Result<
        Outcome,
        Fault,
    >)
        requires
            old(self).wf(),
            old(self).has_room(),
        ensures
            final(self).wf(),
            final(self).thunks.extends(old(self).thunks),
            (OsOut { os: final(self)@, cpu: final(cpu)@, mem: final(mem)@, r }) == get_proc_out(
                old(self)@,
                old(cpu)@,
                old(mem)@,
            ),
    {
        proof {
            reveal(get_proc_out);
        }
        let list: Vec<u64> = vec![0, 1];
        assert(list@ =~= seq![0u64, 1]);
        let a = match args(self.cfg.is_64bit, cpu, mem, &list) {
            Ok(a) => a,
            Err(f) => {
                return Err(f);
            },
        };
        returning(self.dll.get_proc_address(&self.cfg, &mut self.thunks, mem, a[0], a[1]))
    }
}

} // verus!
