//! The emulated operating system: everything that a process keeps between calls.

use vstd::prelude::*;

use std::collections::HashMap;

use crate::api::Api;
use crate::call::Outcome;
use crate::cb::{
    advanced, call_views, invoked, lemma_callbacks_in_order, queues_after, slot, CallView, Callback,
    Callbacks, Dialog, FrameView, Initializers, InittermView,
};
use crate::config::WinConfig;
use crate::cpu::{CpuState, CpuView};
use crate::env::{default_environment, default_vars, Environment, VarView};
use crate::fs::{FileTable, FsView};
use crate::gdi::{Gdi, GdiView};
use crate::heap::{Heap, HeapView};
use crate::hive::{seeded, RegView, Registry};
use crate::loader::{Loader, LoaderView};
use crate::mem::{
    at, below, ga, lemma_pointer_read_back, sptr, store_ptr, Fault, MemView, Stored, VirtualMemory,
};
use crate::nls::{NlsState, NlsView};
use crate::sched::{SchedView, Scheduler, ThreadView, MAIN_TID};
use crate::section::{SectionTable, SectionView};
use crate::ssdt::{default_table, Ssdt, SyscallHandler};
use crate::sync::{ObjectTable, TableView};
use crate::text::{chars_of, str_eq, string_of};
use crate::thunk::{ImportSymbol, ThunkTable, ThunkView};
use crate::time::HostClock;
use crate::ui::{text_views, Ui, UiView};
use crate::unix::{unix_tables, UnixEntry, Unixlib};
use crate::util::{first_index, lemma_first_index, lemma_first_index_is, lemma_first_index_none, StrMap};
use crate::vm::{VmState, VmView};

verus! {

broadcast use vstd::std_specs::hash::group_hash_axioms;

/// The handles of the standard streams.
pub const HANDLE_STDIN: u64 = 0x0C;

pub const HANDLE_STDOUT: u64 = 0x10;

pub const HANDLE_STDERR: u64 = 0x14;

/// The handle of the process heap.
pub const HANDLE_PROCESS_HEAP: u64 = 0x00AB_0000;

/// The first handle that is handed out.
pub const FIRST_HANDLE: u64 = 0x1000;

/// How often a message loop that nobody feeds is kept going.
pub const MSG_PUMPS: u32 = 8;

pub const ERROR_NOT_ENOUGH_MEMORY: u32 = 8;

/// What `DllMain` and TLS callbacks are told.
pub const DLL_PROCESS_DETACH: u64 = 0;

pub const DLL_PROCESS_ATTACH: u64 = 1;

pub const DLL_THREAD_ATTACH: u64 = 2;

/// One function of an image as its unwind table describes it.
#[derive(Clone, Copy, Debug, PartialEq, Eq, Structural)]
pub struct UnwindEntry {
    pub begin_rva: u32,
    pub end_rva: u32,
    pub unwind_rva: u32,
}

/// The thunks that are there from the start.
#[derive(Clone, Copy, Debug, PartialEq, Eq, Structural)]
pub struct Drivers {
    pub initterm: u64,
    pub callback: u64,
    pub exception: u64,
    pub thread_exit: u64,
    pub thread_tls: u64,
    pub thread_entry: u64,
}

/// The emulated operating system.
pub struct WinOs {
    pub cfg: WinConfig,
    pub thunks: ThunkTable,
    pub drivers: Drivers,
    pub heap: Heap,
    pub last_error: u32,
    pub vm: VmState,
    pub inits: Initializers,
    pub cbs: Callbacks,
    /// The code that the process ends with once its callbacks have run.
    pub pending_exit: Option<i32>,
    pub env: Environment,
    /// Which slots of thread- and fiber-local storage are in use.
    pub tls_used: Vec<bool>,
    pub fls_used: Vec<bool>,
    /// The TLS callbacks of the main image.
    pub tls_callbacks: Vec<u64>,
    pub reg: Registry,
    pub objects: ObjectTable,
    pub sched: Scheduler,
    pub files: FileTable,
    pub next_handle: u64,
    pub gdi: Gdi,
    pub dll: Loader,
    pub ui: Ui,
    pub dialog: Dialog,
    /// The texts of controls, in code units.
    pub controls: HashMap<u32, Vec<u16>>,
    /// How often a message loop is still kept going.
    pub msg_pumps: u32,
    pub quit_posted: bool,
    /// Minimum, maximum and position of progress bars.
    pub progress: HashMap<u32, (i64, i64, i64)>,
    /// The cells behind the variables of the C runtime.
    pub crt_globals: StrMap<u64>,
    pub stdout: Vec<u8>,
    pub stderr: Vec<u8>,
    /// What the guest reported, where calls are reported.
    pub traced: Vec<u8>,
    pub unwind: Vec<UnwindEntry>,
    /// The host's clock as it was told last.
    pub clock: HostClock,
    pub ssdt: Ssdt,
    /// Where the stack of NT services starts; 0 before the first.
    pub unix_stack_top: u64,
    /// The guest's stack pointer when it made the NT call.
    pub syscall_rsp: u64,
    /// Whether an NT service has set up the registers itself.
    pub resume_as_is: bool,
    /// The code that an NT service ends the process with.
    pub syscall_exit: Option<i32>,
    pub unixlibs: Vec<Unixlib>,
    /// Which host half belongs to the library at an address.
    pub unixlib_of: HashMap<u64, u64>,
    /// Whether the last call of a host half blocked its thread.
    pub unix_call_blocked: bool,
    pub nls: NlsState,
    pub sections: SectionTable,
}

/// The emulated operating system as mathematics.
#[verifier::ext_equal]
pub struct OsView {
    pub cfg: WinConfig,
    pub thunks: ThunkView,
    pub drivers: Drivers,
    pub heap: HeapView,
    pub last_error: u32,
    pub vm: VmView,
    pub inits: Seq<InittermView>,
    pub cbs: Seq<FrameView>,
    pub pending_exit: Option<i32>,
    pub env: Seq<VarView>,
    pub tls_used: Seq<bool>,
    pub fls_used: Seq<bool>,
    pub tls_callbacks: Seq<u64>,
    pub reg: RegView,
    pub objects: TableView,
    pub names: Map<Seq<char>, u64>,
    pub sched: SchedView,
    pub files: FsView,
    pub next_handle: u64,
    pub gdi: GdiView,
    pub dll: LoaderView,
    pub ui: UiView,
    pub dialog: Dialog,
    pub controls: Map<u32, Seq<u16>>,
    pub msg_pumps: u32,
    pub quit_posted: bool,
    pub progress: Map<u32, (i64, i64, i64)>,
    pub crt_globals: Map<Seq<char>, u64>,
    pub stdout: Seq<u8>,
    pub stderr: Seq<u8>,
    pub traced: Seq<u8>,
    pub unwind: Seq<UnwindEntry>,
    pub clock: HostClock,
    pub ssdt: Seq<SyscallHandler>,
    pub unix_stack_top: u64,
    pub syscall_rsp: u64,
    pub resume_as_is: bool,
    pub syscall_exit: Option<i32>,
    pub unixlibs: Seq<Seq<UnixEntry>>,
    pub unixlib_of: Map<u64, u64>,
    pub unix_call_blocked: bool,
    pub nls: NlsView,
    pub sections: Map<u64, SectionView>,
}

impl View for WinOs {
    type V = OsView;

    open spec fn view(&self) -> OsView {
        OsView {
            cfg: self.cfg,
            thunks: self.thunks@,
            drivers: self.drivers,
            heap: self.heap@,
            last_error: self.last_error,
            vm: self.vm@,
            inits: self.inits.frames(),
            cbs: self.cbs.frames(),
            pending_exit: self.pending_exit,
            env: self.env@,
            tls_used: self.tls_used@,
            fls_used: self.fls_used@,
            tls_callbacks: self.tls_callbacks@,
            reg: self.reg@,
            objects: self.objects@,
            names: self.objects.names@,
            sched: self.sched@,
            files: self.files@,
            next_handle: self.next_handle,
            gdi: self.gdi@,
            dll: self.dll@,
            ui: self.ui@,
            dialog: self.dialog,
            controls: text_views(self.controls@),
            msg_pumps: self.msg_pumps,
            quit_posted: self.quit_posted,
            progress: self.progress@,
            crt_globals: self.crt_globals@,
            stdout: self.stdout@,
            stderr: self.stderr@,
            traced: self.traced@,
            unwind: self.unwind@,
            clock: self.clock,
            ssdt: self.ssdt@,
            unix_stack_top: self.unix_stack_top,
            syscall_rsp: self.syscall_rsp,
            resume_as_is: self.resume_as_is,
            syscall_exit: self.syscall_exit,
            unixlibs: unix_tables(self.unixlibs@),
            unixlib_of: self.unixlib_of@,
            unix_call_blocked: self.unix_call_blocked,
            nls: self.nls@,
            sections: self.sections@,
        }
    }
}

impl OsView {
    /// Whether the target is 64-bit code.
    pub open spec fn wide(self) -> bool {
        self.cfg.is_64bit
    }

    /// With another last error.
    pub open spec fn failed(self, error: u32) -> OsView {
        OsView { last_error: error, ..self }
    }

    /// The main thread before it has run: its environment block is the one that
    /// the application set up.
    pub open spec fn main_thread(cfg: WinConfig) -> ThreadView {
        ThreadView { teb_base: cfg.teb_base, ..ThreadView::first(MAIN_TID) }
    }

    /// The operating system before the process starts.
    pub open spec fn initial(cfg: WinConfig) -> OsView {
        OsView {
            cfg,
            thunks: ThunkView { base: cfg.api_base, count: 6, imports: Seq::empty() },
            drivers: Drivers {
                initterm: cfg.api_base,
                callback: (cfg.api_base + 8) as u64,
                exception: (cfg.api_base + 16) as u64,
                thread_exit: (cfg.api_base + 24) as u64,
                thread_tls: (cfg.api_base + 32) as u64,
                thread_entry: (cfg.api_base + 40) as u64,
            },
            heap: HeapView {
                base: cfg.heap_base,
                size: cfg.heap_size,
                next: cfg.heap_base,
                sizes: Map::empty(),
            },
            last_error: 0,
            vm: VmView { allocs: Seq::empty(), next: cfg.valloc_base },
            inits: Seq::empty(),
            cbs: Seq::empty(),
            pending_exit: None,
            env: default_vars(),
            tls_used: Seq::empty(),
            fls_used: Seq::empty(),
            tls_callbacks: Seq::empty(),
            reg: seeded(RegView { keys: Map::empty(), handles: Map::empty() }),
            objects: TableView { handles: Map::empty(), objects: Map::empty() },
            names: Map::empty(),
            sched: SchedView {
                threads: seq![OsView::main_thread(cfg)],
                current: 0,
                current_tid: MAIN_TID,
                next_tid: 0x1002,
                ticks: 0,
            },
            files: FsView {
                files: Map::empty(),
                dirs: Map::empty(),
                finds: Map::empty(),
                temps: 0,
            },
            next_handle: FIRST_HANDLE,
            gdi: GdiView::initial(),
            dll: LoaderView::empty(),
            ui: UiView {
                backend: false,
                open: false,
                client: None,
                templates: Seq::empty(),
                edited: Map::empty(),
                effects: Seq::empty(),
            },
            dialog: Dialog { dlgproc: 0, hwnd: 0, result: None },
            controls: Map::empty(),
            msg_pumps: MSG_PUMPS,
            quit_posted: false,
            progress: Map::empty(),
            crt_globals: Map::empty(),
            stdout: Seq::empty(),
            stderr: Seq::empty(),
            traced: Seq::empty(),
            unwind: Seq::empty(),
            clock: HostClock { filetime: 0, ticks: 0 },
            ssdt: default_table(),
            unix_stack_top: 0,
            syscall_rsp: 0,
            resume_as_is: false,
            syscall_exit: None,
            unixlibs: Seq::empty(),
            unixlib_of: Map::empty(),
            unix_call_blocked: false,
            nls: NlsView { locale: None, sections: Seq::empty() },
            sections: Map::empty(),
        }
    }
}

/// The register file after the served function returned to its caller, and in
/// 32-bit code took `argc` words off the stack.
pub open spec fn returned(is_64bit: bool, c: CpuView, m: MemView, argc: u32) -> Result<
    CpuView,
    Fault,
> {
    match m.rptr(is_64bit, c.rsp()) {
        Err(f) => Err(f),
        Ok(a) => Ok(
            c.with_rip(a).with_rsp(
                if is_64bit {
                    ga(c.rsp(), 8)
                } else {
                    (ga(c.rsp(), 4 + argc * 4) as u32) as u64
                },
            ),
        ),
    }
}

/// Return from a served function.
pub fn ret(is_64bit: bool, cpu: &mut CpuState, mem: &VirtualMemory, argc: u32) -> (r: Result<
    (),
    Fault,
>)
    ensures
        match returned(is_64bit, old(cpu)@, mem@, argc) {
            Ok(c) => r is Ok && final(cpu)@ == c,
            Err(f) => r == Err::<(), Fault>(f) && final(cpu)@ == old(cpu)@,
        },
{
    let sp: u64 = cpu.rsp();
    let a: u64 = match mem.read_ptr(is_64bit, sp) {
        Ok(a) => a,
        Err(f) => {
            return Err(f);
        },
    };
    cpu.rip = a;
    if is_64bit {
        cpu.set_rsp(at(sp, 8));
    } else {
        let top: u64 = at(sp, 4 + argc as u64 * 4);
        cpu.set_rsp((top as u32) as u64);
    }
    Ok(())
}

/// The calls of TLS callbacks of the image at `module`.
pub open spec fn tls_calls(cbs: Seq<u64>, module: u64, reason: u64) -> Seq<CallView> {
    Seq::new(cbs.len(), |i: int| CallView { func: cbs[i], args: seq![module, reason, 0] })
}

/// The calls of entry points, each told its own module.
pub open spec fn entry_calls(targets: Seq<(u64, u64)>, reason: u64) -> Seq<CallView> {
    Seq::new(
        targets.len(),
        |i: int| CallView { func: targets[i].0, args: seq![targets[i].1, reason, 0] },
    )
}

/// The calls of TLS callbacks.
pub fn make_tls_calls(cbs: &Vec<u64>, module: u64, reason: u64) -> (r: Vec<Callback>)
    ensures
        call_views(r@) == tls_calls(cbs@, module, reason),
{
    let mut out: Vec<Callback> = Vec::new();
    let mut i: usize = 0;
    while i < cbs.len()
        invariant
            i <= cbs.len(),
            out.len() == i,
            forall|j: int|
                0 <= j < i ==> (#[trigger] out@[j])@ == (CallView {
                    func: cbs@[j],
                    args: seq![module, reason, 0],
                }),
        decreases cbs.len() - i,
    {
        let args: Vec<u64> = vec![module, reason, 0];
        assert(args@ =~= seq![module, reason, 0]);
        out.push(Callback { func: cbs[i], args });
        i = i + 1;
    }
    assert(call_views(out@) =~= tls_calls(cbs@, module, reason));
    out
}

/// The calls of entry points.
pub fn make_entry_calls(targets: &Vec<(u64, u64)>, reason: u64) -> (r: Vec<Callback>)
    ensures
        call_views(r@) == entry_calls(targets@, reason),
{
    let mut out: Vec<Callback> = Vec::new();
    let mut i: usize = 0;
    while i < targets.len()
        invariant
            i <= targets.len(),
            out.len() == i,
            forall|j: int|
                0 <= j < i ==> (#[trigger] out@[j])@ == (CallView {
                    func: targets@[j].0,
                    args: seq![targets@[j].1, reason, 0],
                }),
        decreases targets.len() - i,
    {
        let base: u64 = targets[i].1;
        let args: Vec<u64> = vec![base, reason, 0];
        assert(args@ =~= seq![base, reason, 0]);
        out.push(Callback { func: targets[i].0, args });
        i = i + 1;
    }
    assert(call_views(out@) =~= entry_calls(targets@, reason));
    out
}

// ---- slots ------------------------------------------------------------------

/// The condition of being free.
pub open spec fn is_free_slot() -> spec_fn(bool) -> bool {
    |used: bool| !used
}

/// The slot that is handed out next: the first free one, or a new one.
pub open spec fn free_slot(used: Seq<bool>) -> int {
    match first_index(used, is_free_slot()) {
        Some(i) => i,
        None => used.len() as int,
    }
}

/// The slots after one was handed out.
pub open spec fn slot_taken(used: Seq<bool>) -> Seq<bool> {
    if free_slot(used) < used.len() {
        used.update(free_slot(used), true)
    } else {
        used.push(true)
    }
}

/// A thread without a value in a slot.
pub open spec fn without_slot(t: ThreadView, fiber: bool, index: u64) -> ThreadView {
    if fiber {
        ThreadView { fls: t.fls.remove(index), ..t }
    } else {
        ThreadView { tls: t.tls.remove(index), ..t }
    }
}

/// A thread with a value in a slot.
pub open spec fn with_slot(t: ThreadView, fiber: bool, index: u64, value: u64) -> ThreadView {
    if fiber {
        ThreadView { fls: t.fls.insert(index, value), ..t }
    } else {
        ThreadView { tls: t.tls.insert(index, value), ..t }
    }
}

/// The value of a thread in a slot; 0 for none.
pub open spec fn slot_value(t: ThreadView, fiber: bool, index: u64) -> u64 {
    let m = if fiber {
        t.fls
    } else {
        t.tls
    };
    if m.contains_key(index) {
        m[index]
    } else {
        0
    }
}

impl OsView {
    /// Which slots of a kind are in use.
    pub open spec fn used(self, fiber: bool) -> Seq<bool> {
        if fiber {
            self.fls_used
        } else {
            self.tls_used
        }
    }

    /// With other slots of a kind in use.
    pub open spec fn with_used(self, fiber: bool, used: Seq<bool>) -> OsView {
        if fiber {
            OsView { fls_used: used, ..self }
        } else {
            OsView { tls_used: used, ..self }
        }
    }

    /// With no thread's value left in a slot.
    pub open spec fn slot_cleared(self, fiber: bool, index: u64) -> OsView {
        OsView {
            sched: SchedView {
                threads: Seq::new(
                    self.sched.threads.len(),
                    |i: int| without_slot(self.sched.threads[i], fiber, index),
                ),
                ..self.sched
            },
            ..self
        }
    }

    /// With one more slot handed out.
    pub open spec fn slot_allocated(self, fiber: bool) -> OsView {
        self.with_used(fiber, slot_taken(self.used(fiber))).slot_cleared(
            fiber,
            free_slot(self.used(fiber)) as u64,
        )
    }

    /// With a value of the running thread in a slot.
    pub open spec fn slot_set(self, fiber: bool, index: u64, value: u64) -> OsView {
        OsView {
            sched: self.sched.with_thread(
                self.sched.current,
                with_slot(self.sched.me(), fiber, index, value),
            ),
            ..self
        }
    }

    /// With a slot given back.
    pub open spec fn slot_freed(self, fiber: bool, index: u64) -> OsView {
        let used = self.used(fiber);
        self.with_used(
            fiber,
            if index < used.len() {
                used.update(index as int, false)
            } else {
                used
            },
        ).slot_cleared(fiber, index)
    }
}

/// A value put in a slot is read back by the thread that put it there, and by no
/// other.
pub proof fn lemma_slot_set_get(v: OsView, fiber: bool, index: u64, value: u64, other: int)
    requires
        v.sched.wf(),
        0 <= other < v.sched.threads.len(),
        other != v.sched.current,
    ensures
        ({
            let w = v.slot_set(fiber, index, value);
            &&& slot_value(w.sched.me(), fiber, index) == value
            &&& w.sched.threads[other] == v.sched.threads[other]
            &&& forall|i: u64|
                i != index ==> #[trigger] slot_value(w.sched.me(), fiber, i) == slot_value(
                    v.sched.me(),
                    fiber,
                    i,
                )
            &&& forall|kind: bool, i: u64|
                kind != fiber ==> #[trigger] slot_value(w.sched.me(), kind, i) == slot_value(
                    v.sched.me(),
                    kind,
                    i,
                )
        }),
{
}

/// A slot that was handed out is in use, was not before, and holds nothing in any
/// thread.
pub proof fn lemma_slot_fresh(v: OsView, fiber: bool, t: int)
    requires
        0 <= t < v.sched.threads.len(),
        v.used(fiber).len() < u64::MAX,
    ensures
        ({
            let i = free_slot(v.used(fiber));
            let w = v.slot_allocated(fiber);
            &&& 0 <= i < w.used(fiber).len()
            &&& w.used(fiber)[i]
            &&& i < v.used(fiber).len() ==> !v.used(fiber)[i]
            &&& slot_value(w.sched.threads[t], fiber, i as u64) == 0
        }),
{
    lemma_first_index(v.used(fiber), is_free_slot());
}

// ---- cells of the C runtime ---------------------------------------------------

/// What the cell of a variable starts with.
pub open spec fn cell_seed(cfg: WinConfig, name: Seq<char>) -> u64 {
    if name == "__p__acmdln"@ {
        cfg.cmdline_ptr_a
    } else if name == "__p__wcmdln"@ {
        cfg.cmdline_ptr_w
    } else {
        0
    }
}

/// An operating system, memory and an answer.
pub struct OsReply {
    pub os: OsView,
    pub mem: MemView,
    pub r: Result<u64, Fault>,
}

impl OsView {
    /// The address of `n` fresh bytes of the heap; 0 where it is exhausted.
    pub open spec fn fresh_block(self, n: u64) -> u64 {
        match self.heap.block(n) {
            Some(p) => p,
            None => 0,
        }
    }

    /// After `n` bytes of the heap were asked for.
    pub open spec fn heap_asked(self, n: u64) -> OsView {
        OsView {
            heap: self.heap.after(n),
            last_error: if self.heap.fits(n) {
                self.last_error
            } else {
                ERROR_NOT_ENOUGH_MEMORY
            },
            ..self
        }
    }

    /// The cell of a variable of the C runtime: the one it has, or a new one that
    /// holds the command line or 0.
    pub open spec fn crt_cell(self, m: MemView, name: Seq<char>) -> OsReply {
        if self.crt_globals.contains_key(name) {
            OsReply { os: self, mem: m, r: Ok(self.crt_globals[name]) }
        } else {
            let cell = self.fresh_block(8);
            let v = self.heap_asked(8);
            let seed = cell_seed(self.cfg, name);
            let s = if seed != 0 && cell != 0 {
                m.store(sptr(self.wide(), cell, seed))
            } else {
                Stored { mem: m, fault: None }
            };
            match s.fault {
                Some(f) => OsReply { os: v, mem: s.mem, r: Err(f) },
                None => OsReply {
                    os: OsView { crt_globals: v.crt_globals.insert(name, cell), ..v },
                    mem: s.mem,
                    r: Ok(cell),
                },
            }
        }
    }
}

/// The same variable always has the same cell.
pub proof fn lemma_cell_stable(v: OsView, m: MemView, n: MemView, name: Seq<char>)
    requires
        v.crt_cell(m, name).r is Ok,
    ensures
        v.crt_cell(m, name).os.crt_cell(n, name).r == v.crt_cell(m, name).r,
        v.crt_cell(m, name).os.crt_cell(n, name).mem == n,
{
}

// ---- the process ------------------------------------------------------------

/// An operating system, a register file, memory and whether there was a fault.
pub struct OsStep {
    pub os: OsView,
    pub cpu: CpuView,
    pub mem: MemView,
    pub r: Result<(), Fault>,
}

/// An operating system, a register file, memory and how to go on.
pub struct OsOut {
    pub os: OsView,
    pub cpu: CpuView,
    pub mem: MemView,
    pub r: Result<Outcome, Fault>,
}

/// The result of an outcome that is not looked at.
pub open spec fn done(r: Result<Outcome, Fault>) -> Result<(), Fault> {
    match r {
        Ok(_) => Ok(()),
        Err(f) => Err(f),
    }
}

impl OsView {
    /// What making guest calls leads to.
    pub open spec fn calling(
        self,
        c: CpuView,
        m: MemView,
        calls: Seq<CallView>,
        result: u64,
        argc: u32,
        modal: bool,
    ) -> OsOut {
        let o = invoked(
            self.drivers.callback,
            self.cbs,
            self.wide(),
            c,
            m,
            calls,
            result,
            argc,
            modal,
        );
        OsOut { os: OsView { cbs: o.0, ..self }, cpu: o.1, mem: o.2, r: o.3 }
    }

    /// What starting the process at `entry` leads to. With TLS callbacks, they run
    /// first and return to the entry point, over the stack that a plain start
    /// would have.
    pub open spec fn started(self, c: CpuView, m: MemView, entry: u64) -> OsStep {
        if self.tls_callbacks.len() == 0 {
            OsStep { os: self, cpu: c.with_rip(entry), mem: m, r: Ok(()) }
        } else {
            let sp = ga(c.rsp(), -slot(self.wide()));
            let s = m.store(sptr(self.wide(), sp, entry));
            match s.fault {
                Some(f) => OsStep { os: self, cpu: c, mem: s.mem, r: Err(f) },
                None => {
                    let o = self.calling(
                        c.with_rsp(sp),
                        s.mem,
                        tls_calls(self.tls_callbacks, self.cfg.image_base, DLL_PROCESS_ATTACH),
                        0,
                        0,
                        false,
                    );
                    OsStep { os: o.os, cpu: o.cpu, mem: o.mem, r: done(o.r) }
                },
            }
        }
    }

    /// What telling newly loaded images of the process leads to.
    pub open spec fn attaching(self, c: CpuView, m: MemView) -> OsStep {
        let pending = self.dll.pending_attach;
        if pending.len() == 0 {
            OsStep { os: self, cpu: c, mem: m, r: Ok(()) }
        } else {
            let v = OsView {
                dll: LoaderView { pending_attach: Seq::empty(), ..self.dll }.attached(pending),
                ..self
            };
            let o = v.calling(c, m, entry_calls(pending, DLL_PROCESS_ATTACH), 0, 0, false);
            OsStep { os: o.os, cpu: o.cpu, mem: o.mem, r: done(o.r) }
        }
    }
}

/// The calls that a start with callbacks makes, over a stack that leads to the entry
/// point.
proof fn lemma_started(v: OsView, c: CpuView, m: MemView, entry: u64)
    requires
        c.gpr.len() == 16,
        v.tls_callbacks.len() > 0,
        v.started(c, m, entry).r is Ok,
        m.can_read(ga(c.rsp(), -slot(v.wide())) as int, slot(v.wide())),
        !v.wide() ==> entry < 0x1_0000_0000,
    ensures
        ({
            let sp = ga(c.rsp(), -slot(v.wide()));
            let n = m.store(sptr(v.wide(), sp, entry)).mem;
            let calls = tls_calls(v.tls_callbacks, v.cfg.image_base, DLL_PROCESS_ATTACH);
            let i = invoked(
                v.drivers.callback,
                v.cbs,
                v.wide(),
                c.with_rsp(sp),
                n,
                calls,
                0,
                0,
                false,
            );
            &&& v.started(c, m, entry).os.cbs == i.0
            &&& v.started(c, m, entry).cpu == i.1
            &&& i.3 is Ok
            &&& n.rptr(v.wide(), sp) == Ok::<u64, Fault>(entry)
            &&& c.with_rsp(sp).rsp() == sp
            &&& calls.len() == v.tls_callbacks.len()
            &&& calls[0].func == v.tls_callbacks[0]
            &&& ga(sp, slot(v.wide())) == c.rsp()
        }),
{
    let sp = ga(c.rsp(), -slot(v.wide()));
    lemma_pointer_read_back(m, v.wide(), sp, entry);
}

/// However many callbacks run at the start of a process, and whatever each does to
/// registers and memory, the entry point then starts over the very stack that a plain
/// start would give it.
pub proof fn lemma_start_reaches_entry(
    v: OsView,
    c: CpuView,
    m: MemView,
    entry: u64,
    back: Seq<(CpuView, MemView)>,
)
    requires
        c.gpr.len() == 16,
        v.tls_callbacks.len() > 0,
        v.started(c, m, entry).r is Ok,
        m.can_read(ga(c.rsp(), -slot(v.wide())) as int, slot(v.wide())),
        !v.wide() ==> entry < 0x1_0000_0000,
        back[v.tls_callbacks.len() - 1].0.gpr.len() == 16,
    ensures
        ({
            let o = v.started(c, m, entry);
            let n = (v.tls_callbacks.len() - 1) as nat;
            let a = advanced(
                v.drivers.callback,
                queues_after(v.drivers.callback, o.os.cbs, v.dialog, v.wide(), back, n),
                v.dialog,
                None,
                None,
                v.wide(),
                back[n as int].0,
                back[n as int].1,
            );
            &&& o.cpu.rip == v.tls_callbacks[0]
            &&& a.r == Ok::<Outcome, Fault>(Outcome::Resume)
            &&& a.stack == v.cbs
            &&& a.cpu.rip == entry
            &&& a.cpu.rsp() == c.rsp()
        }),
{
    lemma_started(v, c, m, entry);
    let sp = ga(c.rsp(), -slot(v.wide()));
    lemma_callbacks_in_order(
        v.drivers.callback,
        v.cbs,
        v.dialog,
        v.wide(),
        c.with_rsp(sp),
        m.store(sptr(v.wide(), sp, entry)).mem,
        tls_calls(v.tls_callbacks, v.cfg.image_base, DLL_PROCESS_ATTACH),
        0,
        0,
        back,
        (v.tls_callbacks.len() - 1) as nat,
    );
}

impl WinOs {
    /// The parts fit together.
    pub open spec fn wf(self) -> bool {
        &&& self.thunks.wf()
        &&& self.heap@.wf()
        &&& self.vm.wf()
        &&& self.sched@.wf()
        &&& self.objects@.wf()
        &&& self.objects@.below(self.next_handle)
        &&& self.cbs.driver == self.drivers.callback
        &&& self.inits.driver == self.drivers.initterm
    }

    /// Handles, thread ids, thunks and windows have not run out.
    pub open spec fn has_room(self) -> bool {
        &&& self.next_handle <= u64::MAX - 8
        &&& self.sched.next_tid < u32::MAX
        &&& self.thunks@.has_room(1)
        &&& self.gdi.has_room()
        &&& self.files.temps < u32::MAX
        &&& self.dll@.has_room()
        &&& self.dll@.lock_depth < u32::MAX
    }

    /// Whether handles, thread ids, thunks and windows have not run out.
    pub fn room(&self) -> (r: bool)
        requires
            self.wf(),
        ensures
            r == self.has_room(),
    {
        self.next_handle <= u64::MAX - 8 && self.sched.next_tid < u32::MAX && self.thunks.room_for(1)
            && self.gdi.next_hwnd <= u64::MAX - 0x10 && self.gdi.next_object <= u64::MAX - 8
            && self.files.temps < u32::MAX && self.dll.next_system <= u64::MAX - 0x1_0000
            && self.dll.lock_depth < u32::MAX
    }

    /// A new operating system: its driver thunks are reserved, its main thread
    /// runs, and its registry holds what installers look for.
    pub fn new(cfg: WinConfig) -> (os: WinOs)
        requires
            cfg.api_base <= u64::MAX - 64,
        ensures
            os.wf(),
            os@ == OsView::initial(cfg),
            os.thunks.apis@ == seq![
                Api::InittermDriver,
                Api::CallbackDriver,
                Api::ExceptionDriver,
                Api::ThreadExit,
                Api::ThreadTlsAttach,
                Api::ThreadStartEntry,
            ],
            cfg.api_base <= u64::MAX - 128 ==> os.has_room(),
    {
        let mut thunks = ThunkTable::new(cfg.api_base);
        let initterm: u64 = thunks.alloc_thunk(Api::InittermDriver);
        let callback: u64 = thunks.alloc_thunk(Api::CallbackDriver);
        let exception: u64 = thunks.alloc_thunk(Api::ExceptionDriver);
        let thread_exit: u64 = thunks.alloc_thunk(Api::ThreadExit);
        let thread_tls: u64 = thunks.alloc_thunk(Api::ThreadTlsAttach);
        let thread_entry: u64 = thunks.alloc_thunk(Api::ThreadStartEntry);
        let drivers = Drivers { initterm, callback, exception, thread_exit, thread_tls, thread_entry };
        let mut reg = Registry::new();
        reg.reg_seed();
        let mut sched = Scheduler::new();
        let ghost sv = sched@;
        let mut first = sched.threads.remove(0);
        assert(first@ == sv.threads[0]);
        first.teb_base = cfg.teb_base;
        sched.threads.insert(0, first);
        assert(sched@.threads =~= seq![OsView::main_thread(cfg)]);
        let heap = Heap::new(cfg.heap_base, cfg.heap_size);
        let vm = VmState::new(cfg.valloc_base);
        let os = WinOs {
            cfg,
            thunks,
            drivers,
            heap,
            last_error: 0,
            vm,
            inits: Initializers { driver: initterm, stack: Vec::new() },
            cbs: Callbacks { driver: callback, stack: Vec::new() },
            pending_exit: None,
            env: default_environment(),
            tls_used: Vec::new(),
            fls_used: Vec::new(),
            tls_callbacks: Vec::new(),
            reg,
            objects: ObjectTable::new(),
            sched,
            files: FileTable::new(),
            next_handle: FIRST_HANDLE,
            gdi: Gdi::new(),
            dll: Loader::new(),
            ui: Ui::headless(),
            dialog: Dialog { dlgproc: 0, hwnd: 0, result: None },
            controls: HashMap::new(),
            msg_pumps: MSG_PUMPS,
            quit_posted: false,
            progress: HashMap::new(),
            crt_globals: StrMap::new(),
            stdout: Vec::new(),
            stderr: Vec::new(),
            traced: Vec::new(),
            unwind: Vec::new(),
            clock: HostClock { filetime: 0, ticks: 0 },
            ssdt: Ssdt::new(),
            unix_stack_top: 0,
            syscall_rsp: 0,
            resume_as_is: false,
            syscall_exit: None,
            unixlibs: Vec::new(),
            unixlib_of: HashMap::new(),
            unix_call_blocked: false,
            nls: NlsState::new(),
            sections: SectionTable::new(),
        };
        proof {
            let want = OsView::initial(cfg);
            assert(os@.inits =~= want.inits);
            assert(os@.cbs =~= want.cbs);
            assert(os@.controls =~= want.controls);
            assert(os@.unixlibs =~= want.unixlibs);
            assert(os@.sched =~= want.sched);
            assert(os@.thunks =~= want.thunks);
            assert(os@ =~= want);
            assert(os.thunks.apis@ =~= seq![
                Api::InittermDriver,
                Api::CallbackDriver,
                Api::ExceptionDriver,
                Api::ThreadExit,
                Api::ThreadTlsAttach,
                Api::ThreadStartEntry,
            ]);
        }
        os
    }

    /// Take the unwind table of the main image.
    pub fn set_unwind_table(&mut self, table: Vec<UnwindEntry>)
        ensures
            final(self)@ == (OsView { unwind: table@, ..old(self)@ }),
            old(self).wf() ==> final(self).wf(),
    {
        self.unwind = table;
    }

    /// The unwind table of the main image.
    pub fn unwind_table(&self) -> (t: &Vec<UnwindEntry>)
        ensures
            t@ == self@.unwind,
    {
        &self.unwind
    }

    /// Take the TLS callbacks of the main image.
    pub fn set_tls_callbacks(&mut self, callbacks: Vec<u64>)
        ensures
            final(self)@ == (OsView { tls_callbacks: callbacks@, ..old(self)@ }),
            old(self).wf() ==> final(self).wf(),
    {
        self.tls_callbacks = callbacks;
    }

    /// Take a window backend, and the resource ids of the dialog templates of the
    /// image.
    pub fn set_gui(&mut self, backend: bool, templates: Vec<u32>)
        ensures
            final(self)@ == (OsView {
                ui: UiView { backend, templates: templates@, ..old(self)@.ui },
                ..old(self)@
            }),
            old(self).wf() ==> final(self).wf(),
    {
        self.ui.backend = backend;
        self.ui.templates = templates;
    }

    /// Take the host's clock.
    pub fn set_clock(&mut self, clock: HostClock)
        ensures
            final(self)@ == (OsView { clock, ..old(self)@ }),
            old(self).wf() ==> final(self).wf(),
    {
        self.clock = clock;
    }

    /// The thunk address of an imported symbol, which goes into the import table
    /// of the image. `host` is the library that serves `dll`, where `dll` names a
    /// contract.
    pub fn resolve_import(&mut self, dll: &str, symbol: &ImportSymbol, host: Option<&str>) -> (a:
        u64)
        requires
            old(self).wf(),
            old(self).thunks@.has_room(1),
        ensures
            final(self).wf(),
            final(self).thunks.extends(old(self).thunks),
            ({
                let lib = match host {
                    Some(h) => h@,
                    None => dll@,
                };
                &&& a == old(self)@.thunks.target(lib, symbol.text())
                &&& final(self)@ == (OsView {
                    thunks: old(self)@.thunks.resolved(lib, symbol.text()),
                    ..old(self)@
                })
                &&& final(self).thunks.import_addr(lib, symbol.text()) == Some(a)
            }),
    {
        let name = symbol.name();
        match host {
            Some(h) => self.thunks.resolve(h, name.as_str()),
            None => self.thunks.resolve(dll, name.as_str()),
        }
    }

    /// A thunk for the entry point of the process to return to.
    pub fn exit_thunk(&mut self) -> (a: u64)
        requires
            old(self).wf(),
            old(self).thunks@.has_room(1),
        ensures
            final(self).wf(),
            a == old(self)@.thunks.next(),
            final(self)@ == (OsView { thunks: old(self)@.thunks.grown(), ..old(self)@ }),
            final(self).thunks.extends(old(self).thunks),
            final(self).thunks.apis@ == old(self).thunks.apis@.push(Api::ReturnExit),
    {
        self.thunks.alloc_thunk(Api::ReturnExit)
    }

    /// The range of addresses that have a thunk.
    pub fn thunk_range(&self) -> (r: (u64, u64))
        requires
            self.wf(),
        ensures
            r.0 == self@.thunks.base,
            r.1 == self@.thunks.next(),
    {
        (self.thunks.base, self.thunks.next_addr())
    }

    /// The symbol `dll!name` that a thunk was imported for.
    pub fn symbol_for_thunk(&self, addr: u64) -> (r: Option<String>)
        ensures
            match r {
                Some(s) => self.thunks.symbol_at(addr) == Some(s@),
                None => self.thunks.symbol_at(addr) is None,
            },
    {
        self.thunks.symbol(addr)
    }

    /// What the guest wrote to its standard output.
    pub fn captured_stdout(&self) -> (r: &Vec<u8>)
        ensures
            r@ == self@.stdout,
    {
        &self.stdout
    }

    /// What the guest wrote to its standard error.
    pub fn captured_stderr(&self) -> (r: &Vec<u8>)
        ensures
            r@ == self@.stderr,
    {
        &self.stderr
    }

    /// Add to the captured console output.
    pub fn emit(&mut self, is_err: bool, bytes: &Vec<u8>)
        ensures
            final(self)@ == (if is_err {
                OsView { stderr: old(self)@.stderr + bytes@, ..old(self)@ }
            } else {
                OsView { stdout: old(self)@.stdout + bytes@, ..old(self)@ }
            }),
            old(self).wf() ==> final(self).wf(),
            old(self).has_room() ==> final(self).has_room(),
            final(self).thunks == old(self).thunks,
    {
        let mut copy = bytes.clone();
        assert(copy@ =~= bytes@);
        if is_err {
            self.stderr.append(&mut copy);
        } else {
            self.stdout.append(&mut copy);
        }
    }

    /// The address of `n` fresh bytes of the heap; 0 where it is exhausted.
    pub fn heap_alloc(&mut self, n: u64) -> (p: u64)
        requires
            old(self).wf(),
        ensures
            final(self).wf(),
            old(self).has_room() ==> final(self).has_room(),
            final(self).thunks == old(self).thunks,
            p == old(self)@.fresh_block(n),
            final(self)@ == old(self)@.heap_asked(n),
    {
        match self.heap.allocate(n) {
            Some(p) => p,
            None => {
                self.last_error = ERROR_NOT_ENOUGH_MEMORY;
                0
            },
        }
    }

    /// The cell behind a variable of the C runtime.
    pub fn crt_global(&mut self, mem: &mut VirtualMemory, name: &str) -> (r: Result<u64, Fault>)
        requires
            old(self).wf(),
        ensures
            final(self).wf(),
            old(self).has_room() ==> final(self).has_room(),
            final(self).thunks == old(self).thunks,
            (OsReply { os: final(self)@, mem: final(mem)@, r }) == old(self)@.crt_cell(
                old(mem)@,
                name@,
            ),
    {
        if let Some(cell) = self.crt_globals.get(name) {
            return Ok(*cell);
        }
        let cell: u64 = self.heap_alloc(8);
        let seed: u64 = if str_eq(name, "__p__acmdln") {
            self.cfg.cmdline_ptr_a
        } else if str_eq(name, "__p__wcmdln") {
            self.cfg.cmdline_ptr_w
        } else {
            0
        };
        if seed != 0 && cell != 0 {
            match mem.store(store_ptr(self.cfg.is_64bit, cell, seed)) {
                Ok(_) => {},
                Err(f) => {
                    return Err(f);
                },
            }
        }
        let cs = chars_of(name);
        let _prev = self.crt_globals.insert(string_of(&cs), cell);
        Ok(cell)
    }

    /// Drop the value in a slot in every thread.
    fn clear_slot(&mut self, fiber: bool, index: u64)
        ensures
            final(self)@ == old(self)@.slot_cleared(fiber, index),
            old(self).wf() ==> final(self).wf(),
            old(self).has_room() ==> final(self).has_room(),
            final(self).thunks == old(self).thunks,
    {
        let ghost v = self@;
        let ghost ts = self.sched@.threads;
        let n: usize = self.sched.threads.len();
        let mut i: usize = 0;
        while i < n
            invariant
                i <= n == self.sched.threads.len() == ts.len(),
                ts == v.sched.threads,
                v == old(self)@,
                self@ == (OsView { sched: self@.sched, ..v }),
                self@.sched == (SchedView { threads: self@.sched.threads, ..v.sched }),
                forall|j: int|
                    0 <= j < i ==> #[trigger] self@.sched.threads[j] == without_slot(
                        ts[j],
                        fiber,
                        index,
                    ),
                forall|j: int| i <= j < n ==> #[trigger] self@.sched.threads[j] == ts[j],
                self.thunks == old(self).thunks,
                self.heap == old(self).heap,
                self.vm == old(self).vm,
                self.objects == old(self).objects,
                self.next_handle == old(self).next_handle,
                self.cbs == old(self).cbs,
                self.inits == old(self).inits,
                self.drivers == old(self).drivers,
                self.gdi == old(self).gdi,
                self.files == old(self).files,
                self.dll == old(self).dll,
                self.sched.next_tid == old(self).sched.next_tid,
            decreases n - i,
        {
            let ghost w = self@.sched.threads;
            let mut t = self.sched.threads.remove(i);
            assert(t@ == w[i as int]);
            if fiber {
                let _prev = t.fls.remove(&index);
            } else {
                let _prev = t.tls.remove(&index);
            }
            let ghost tv = t@;
            self.sched.threads.insert(i, t);
            proof {
                assert(tv == without_slot(ts[i as int], fiber, index));
                assert(self@.sched.threads =~= w.update(i as int, tv));
                assert forall|j: int| 0 <= j < i + 1 implies #[trigger] self@.sched.threads[j]
                    == without_slot(ts[j], fiber, index) by {
                    if j < i {
                        assert(w[j] == without_slot(ts[j], fiber, index));
                    }
                }
                assert forall|j: int| i + 1 <= j < n implies #[trigger] self@.sched.threads[j]
                    == ts[j] by {
                    assert(w[j] == ts[j]);
                }
            }
            i = i + 1;
        }
        assert(self@.sched.threads =~= v.slot_cleared(fiber, index).sched.threads);
        assert(self@ =~= v.slot_cleared(fiber, index));
    }

    /// Hand out a slot that holds nothing in any thread.
    pub fn tls_alloc(&mut self, fiber: bool) -> (r: u64)
        ensures
            r == free_slot(old(self)@.used(fiber)) as u64,
            final(self)@ == old(self)@.slot_allocated(fiber),
            old(self).wf() ==> final(self).wf(),
            old(self).has_room() ==> final(self).has_room(),
            final(self).thunks == old(self).thunks,
    {
        let ghost v = self@;
        let ghost used = v.used(fiber);
        let i: usize = if fiber {
            take_slot(&mut self.fls_used)
        } else {
            take_slot(&mut self.tls_used)
        };
        self.clear_slot(fiber, i as u64);
        i as u64
    }

    /// Put a value of the running thread in a slot.
    pub fn tls_set(&mut self, fiber: bool, index: u64, value: u64) -> (r: bool)
        requires
            old(self).sched@.wf(),
        ensures
            r,
            final(self)@ == old(self)@.slot_set(fiber, index, value),
            old(self).wf() ==> final(self).wf(),
            old(self).has_room() ==> final(self).has_room(),
            final(self).thunks == old(self).thunks,
    {
        let ghost v = self@;
        let cur: usize = self.sched.current;
        let mut t = self.sched.threads.remove(cur);
        assert(t@ == v.sched.me());
        if fiber {
            let _prev = t.fls.insert(index, value);
        } else {
            let _prev = t.tls.insert(index, value);
        }
        self.sched.threads.insert(cur, t);
        assert(self@.sched.threads =~= v.slot_set(fiber, index, value).sched.threads);
        assert(self@ =~= v.slot_set(fiber, index, value));
        true
    }

    /// The value of the running thread in a slot.
    pub fn tls_get(&self, fiber: bool, index: u64) -> (r: u64)
        requires
            self.sched@.wf(),
        ensures
            r == slot_value(self@.sched.me(), fiber, index),
    {
        let t = &self.sched.threads[self.sched.current];
        assert(t@ == self@.sched.me());
        let found = if fiber {
            t.fls.get(&index)
        } else {
            t.tls.get(&index)
        };
        match found {
            Some(v) => *v,
            None => 0,
        }
    }

    /// Give a slot back.
    pub fn tls_free(&mut self, fiber: bool, index: u64) -> (r: bool)
        ensures
            r,
            final(self)@ == old(self)@.slot_freed(fiber, index),
            old(self).wf() ==> final(self).wf(),
            old(self).has_room() ==> final(self).has_room(),
            final(self).thunks == old(self).thunks,
    {
        if fiber {
            if index < self.fls_used.len() as u64 {
                self.fls_used.set(index as usize, false);
            }
        } else {
            if index < self.tls_used.len() as u64 {
                self.tls_used.set(index as usize, false);
            }
        }
        self.clear_slot(fiber, index);
        true
    }

    /// A slot for the thread-local data of an image.
    pub fn alloc_tls_index(&mut self) -> (r: u32)
        ensures
            r == (free_slot(old(self)@.tls_used) as u64) as u32,
            final(self)@ == old(self)@.slot_allocated(false),
            old(self).wf() ==> final(self).wf(),
    {
        self.tls_alloc(false) as u32
    }

    /// Make guest calls, then answer the served call.
    pub fn invoke(
        &mut self,
        cpu: &mut CpuState,
        mem: &mut VirtualMemory,
        calls: Vec<Callback>,
        result: u64,
        argc: u32,
        modal: bool,
    ) -> (r: Result<Outcome, Fault>)
        requires
            old(self).wf(),
        ensures
            final(self).wf(),
            old(self).has_room() ==> final(self).has_room(),
            final(self).thunks == old(self).thunks,
            (OsOut { os: final(self)@, cpu: final(cpu)@, mem: final(mem)@, r })
                == old(self)@.calling(
                old(cpu)@,
                old(mem)@,
                call_views(calls@),
                result,
                argc,
                modal,
            ),
    {
        self.cbs.invoke_callbacks(self.cfg.is_64bit, cpu, mem, calls, result, argc, modal)
    }

    /// Start the process at its entry point, behind the TLS callbacks of its
    /// image.
    pub fn start_process(&mut self, cpu: &mut CpuState, mem: &mut VirtualMemory, entry: u64) -> (r:
        Result<(), Fault>)
        requires
            old(self).wf(),
        ensures
            final(self).wf(),
            (OsStep { os: final(self)@, cpu: final(cpu)@, mem: final(mem)@, r })
                == old(self)@.started(old(cpu)@, old(mem)@, entry),
    {
        if self.tls_callbacks.len() == 0 {
            cpu.rip = entry;
            return Ok(());
        }
        let calls = make_tls_calls(&self.tls_callbacks, self.cfg.image_base, DLL_PROCESS_ATTACH);
        let sp: u64 = below(
            cpu.rsp(),
            if self.cfg.is_64bit {
                8
            } else {
                4
            },
        );
        match mem.store(store_ptr(self.cfg.is_64bit, sp, entry)) {
            Ok(_) => {},
            Err(f) => {
                return Err(f);
            },
        }
        cpu.set_rsp(sp);
        match self.invoke(cpu, mem, calls, 0, 0, false) {
            Ok(_) => Ok(()),
            Err(f) => Err(f),
        }
    }

    /// Tell the images that were loaded last of the process, in the order in which
    /// they need each other.
    pub fn run_pending_dllmains(&mut self, cpu: &mut CpuState, mem: &mut VirtualMemory) -> (r:
        Result<(), Fault>)
        requires
            old(self).wf(),
        ensures
            final(self).wf(),
            old(self).has_room() ==> final(self).has_room(),
            final(self).thunks == old(self).thunks,
            (OsStep { os: final(self)@, cpu: final(cpu)@, mem: final(mem)@, r })
                == old(self)@.attaching(old(cpu)@, old(mem)@),
    {
        if self.dll.pending_attach.len() == 0 {
            return Ok(());
        }
        let mut pending: Vec<(u64, u64)> = Vec::new();
        std::mem::swap(&mut pending, &mut self.dll.pending_attach);
        self.dll.mark_attached(&pending);
        let calls = make_entry_calls(&pending, DLL_PROCESS_ATTACH);
        match self.invoke(cpu, mem, calls, 0, 0, false) {
            Ok(_) => Ok(()),
            Err(f) => Err(f),
        }
    }

    /// The address of a loaded image.
    pub fn module_base(&self, name: &str) -> (r: Option<u64>)
        ensures
            r == self@.dll.image_of(name@),
    {
        self.dll.module_base(name)
    }

    /// The address of code that the loaded `ntdll` exports by name.
    pub fn ntdll_export(&self, symbol: &str) -> (r: Option<u64>)
        ensures
            match self@.dll.code_of("ntdll.dll"@, symbol@) {
                Some(a) => r == Some(ga(0, a)),
                None => r is None,
            },
    {
        self.dll.export_address("ntdll.dll", symbol)
    }

    /// The address of an imported symbol: guest code where a loaded image exports
    /// it, else a thunk.
    pub fn resolve_import_addr(
        &mut self,
        dll: &str,
        symbol: &ImportSymbol,
        host: Option<&str>,
        code: Option<u64>,
    ) -> (a: u64)
        requires
            old(self).wf(),
            old(self).thunks@.has_room(1),
        ensures
            final(self).wf(),
            final(self).thunks.extends(old(self).thunks),
            match code {
                Some(c) => a == c && final(self)@ == old(self)@,
                None => {
                    let lib = match host {
                        Some(h) => h@,
                        None => dll@,
                    };
                    &&& a == old(self)@.thunks.target(lib, symbol.text())
                    &&& final(self)@ == (OsView {
                        thunks: old(self)@.thunks.resolved(lib, symbol.text()),
                        ..old(self)@
                    })
                },
            },
    {
        match code {
            Some(a) => a,
            None => self.resolve_import(dll, symbol, host),
        }
    }

    /// Build the loader structures of the process.
    pub fn init_ldr(&mut self, mem: &mut VirtualMemory) -> (r: Result<(), Fault>)
        requires
            old(self).wf(),
        ensures
            final(self).wf(),
            ({
                let o = crate::ldr::init_ldr_out(
                    old(self)@.cfg,
                    old(self)@.env,
                    old(self)@.dll,
                    old(mem)@,
                );
                &&& final(self)@ == (OsView { dll: o.dll, ..old(self)@ })
                &&& final(mem)@ == o.mem
                &&& r == o.r
            }),
    {
        self.dll.init_ldr(&self.cfg, &self.env, mem)
    }

    /// The map of contracts in guest memory; 0 where there is none.
    pub fn api_set_map(&self) -> (a: u64)
        ensures
            a == self@.dll.api_set_map,
    {
        self.dll.api_set_map
    }
}

/// Hand out a slot.
fn take_slot(used: &mut Vec<bool>) -> (r: usize)
    ensures
        r == free_slot(old(used)@),
        final(used)@ == slot_taken(old(used)@),
{
    let mut i: usize = 0;
    while i < used.len()
        invariant
            i <= used.len(),
            used@ == old(used)@,
            forall|j: int| 0 <= j < i ==> !is_free_slot()(#[trigger] used@[j]),
        decreases used.len() - i,
    {
        if !used[i] {
            proof {
                lemma_first_index_is(used@, is_free_slot(), i as int);
            }
            used.set(i, true);
            return i;
        }
        i = i + 1;
    }
    proof {
        lemma_first_index_none(used@, is_free_slot());
    }
    used.push(true);
    i
}

} // verus!
