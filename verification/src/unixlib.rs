//! Calls of a library of the guest to its host half.

use vstd::prelude::*;

use crate::call::{answer, answer_stores, faulted, sysarg, sysarg_at, sysargs, sysargs_at, Reply};
use crate::cpu::{CpuState, CpuView, Reg};
use crate::mem::{at, ga, opt, push_opt, s64, store64, Fault, MemView, Store, VirtualMemory};
use crate::ntreg::{finish, STATUS_INVALID_PARAMETER, STATUS_SUCCESS};
use crate::ntvm::nt_query_basic_reply;
use crate::os::{OsView, WinOs};
use crate::server::{same, server_out, ServerOut};
use crate::ssdt::STATUS_NOT_IMPLEMENTED;
use crate::unix::{ntdll_table, ntdll_unixlib, UnixEntry, Unixlib};

verus! {

broadcast use vstd::std_specs::hash::group_hash_axioms;

/// The class of a memory query that tells the host half of a library.
pub const MEMORY_WINE_UNIX_FUNCS: u32 = 1000;

/// The class of a memory query that tells what lies at an address.
pub const MEMORY_BASIC_INFORMATION: u32 = 0;

/// There is nothing left to unwind.
pub const STATUS_UNSUCCESSFUL: u64 = 0xC000_0001;

/// No library with a host half lies at the address.
pub const STATUS_INVALID_ADDRESS: u64 = 0xC000_0141;

/// There is no such host library.
pub const STATUS_DLL_NOT_FOUND: u64 = 0xC000_0135;

/// The most bytes of one report.
pub const REPORT_LIMIT: u64 = 0x1_0000;

/// The first `n` bytes from `p` on, read one by one.
pub open spec fn report_bytes(m: MemView, p: u64, n: nat) -> Result<Seq<u8>, Fault>
    decreases n,
{
    if n == 0 {
        Ok(Seq::empty())
    } else {
        let k = (n - 1) as nat;
        match report_bytes(m, p, k) {
            Err(f) => Err(f),
            Ok(d) => match m.r8(ga(p, k as int)) {
                Err(f) => Err(f),
                Ok(b) => Ok(d.push(b)),
            },
        }
    }
}

/// Bytes whose prefix faults are read no further.
proof fn lemma_report_stops(m: MemView, p: u64, k: nat, n: nat)
    requires
        k <= n,
        report_bytes(m, p, k) is Err,
    ensures
        report_bytes(m, p, n) == report_bytes(m, p, k),
    decreases n - k,
{
    if k < n {
        lemma_report_stops(m, p, k, (n - 1) as nat);
    }
}

/// Read the bytes of a report.
fn read_report(mem: &VirtualMemory, p: u64, n: u64) -> (r: Result<Vec<u8>, Fault>)
    requires
        n <= REPORT_LIMIT,
    ensures
        match r {
            Ok(d) => report_bytes(mem@, p, n as nat) == Ok::<Seq<u8>, Fault>(d@),
            Err(f) => report_bytes(mem@, p, n as nat) == Err::<Seq<u8>, Fault>(f),
        },
{
    let mut out: Vec<u8> = Vec::new();
    let mut i: u64 = 0;
    assert(out@ =~= Seq::empty());
    while i < n
        invariant
            i <= n <= REPORT_LIMIT,
            report_bytes(mem@, p, i as nat) == Ok::<Seq<u8>, Fault>(out@),
        decreases n - i,
    {
        match mem.read_u8(at(p, i)) {
            Ok(b) => {
                out.push(b);
            },
            Err(f) => {
                proof {
                    lemma_report_stops(mem@, p, (i + 1) as nat, n as nat);
                }
                return Err(f);
            },
        }
        i = i + 1;
    }
    Ok(out)
}

/// A report of the guest: address and length lie at `args`. It is kept where calls
/// are reported, and the answer is its length.
pub open spec fn report_out(v: OsView, c: CpuView, m: MemView, args: u64) -> ServerOut {
    if args == 0 {
        same(v, c, m, Ok(0))
    } else {
        match (m.r64(args), m.r64(ga(args, 8))) {
            (Err(f), _) => same(v, c, m, Err(f)),
            (Ok(_), Err(f)) => same(v, c, m, Err(f)),
            (Ok(p), Ok(len)) => if p == 0 || len == 0 {
                same(v, c, m, Ok(0))
            } else {
                let n: u64 = if len < REPORT_LIMIT {
                    len
                } else {
                    REPORT_LIMIT
                };
                match report_bytes(m, p, n as nat) {
                    Err(f) => same(v, c, m, Err(f)),
                    Ok(d) => same(
                        if v.cfg.trace {
                            OsView { traced: v.traced + d, ..v }
                        } else {
                            v
                        },
                        c,
                        m,
                        Ok(n),
                    ),
                }
            },
        }
    }
}

/// The time, as a `FILETIME` at `args` unless that is null.
pub open spec fn precise_out(v: OsView, c: CpuView, m: MemView, args: u64) -> ServerOut {
    let r = answer_stores(m, opt(s64(args, v.clock.filetime)), STATUS_SUCCESS);
    ServerOut { os: v, cpu: c, mem: r.mem, r: r.r }
}

/// What one entry leads to.
pub open spec fn entry_out(v: OsView, c: CpuView, m: MemView, e: UnixEntry, args: u64) -> ServerOut {
    match e {
        UnixEntry::LoadSoDll => same(v, c, m, Ok(STATUS_DLL_NOT_FOUND)),
        UnixEntry::UnwindBuiltinDll => same(v, c, m, Ok(STATUS_UNSUCCESSFUL)),
        UnixEntry::WineDbgWrite => report_out(v, c, m, args),
        UnixEntry::WineServerCall => server_out(v, c, m, args),
        UnixEntry::ServerFdToHandle => same(v, c, m, Ok(STATUS_NOT_IMPLEMENTED)),
        UnixEntry::ServerHandleToFd => same(v, c, m, Ok(STATUS_NOT_IMPLEMENTED)),
        UnixEntry::Spawnvp => same(v, c, m, Ok(STATUS_NOT_IMPLEMENTED)),
        UnixEntry::SystemTimePrecise => precise_out(v, c, m, args),
    }
}

/// What a call of entry `code` of the host half `handle` leads to; there may be no
/// such entry.
pub open spec fn unix_call_out(
    v: OsView,
    c: CpuView,
    m: MemView,
    handle: u64,
    code: u32,
    args: u64,
) -> ServerOut {
    let v = OsView { unix_call_blocked: false, ..v };
    if handle < v.unixlibs.len() && code < v.unixlibs[handle as int].len() {
        entry_out(v, c, m, v.unixlibs[handle as int][code as int], args)
    } else {
        same(v, c, m, Ok(STATUS_INVALID_PARAMETER))
    }
}

impl OsView {
    /// With a host half for the library at an address, which keeps the one it has.
    pub open spec fn with_unixlib(self, base: u64, table: Seq<UnixEntry>) -> OsView {
        if self.unixlib_of.contains_key(base) {
            self
        } else {
            OsView {
                unixlibs: self.unixlibs.push(table),
                unixlib_of: self.unixlib_of.insert(base, self.unixlibs.len() as u64),
                ..self
            }
        }
    }

    /// The host half of the library at an address.
    pub open spec fn unixlib_handle(self, base: u64) -> Option<u64> {
        if self.unixlib_of.contains_key(base) {
            Some(self.unixlib_of[base])
        } else {
            None
        }
    }
}

/// `NtQueryVirtualMemory`: what lies at an address, or the host half of the
/// library there.
pub open spec fn query_memory_reply(v: OsView, c: CpuView, m: MemView) -> Reply {
    match sysarg_at(v.syscall_rsp, c, m, 2) {
        Err(f) => faulted(m, f),
        Ok(class) => if class as u32 == MEMORY_BASIC_INFORMATION {
            nt_query_basic_reply(v.vm, v.wide(), v.syscall_rsp, c, m)
        } else if class as u32 != MEMORY_WINE_UNIX_FUNCS {
            answer(m, STATUS_INVALID_PARAMETER)
        } else {
            match sysargs_at(v.syscall_rsp, c, m, seq![1, 3, 4, 5]) {
                Err(f) => faulted(m, f),
                Ok(a) => if a[1] == 0 || a[2] < 8 {
                    answer(m, STATUS_INVALID_PARAMETER)
                } else {
                    match v.unixlib_handle(a[0]) {
                        None => answer(m, STATUS_INVALID_ADDRESS),
                        Some(h) => answer_stores(
                            m,
                            seq![s64(a[1], h)] + opt(s64(a[3], 8)),
                            STATUS_SUCCESS,
                        ),
                    }
                },
            }
        },
    }
}

/// A library finds the host half that was registered for it, and its entries are
/// called in the order of the table.
pub proof fn lemma_registered_is_found(v: OsView, base: u64, table: Seq<UnixEntry>)
    requires
        v.unixlibs.len() < u64::MAX,
        !v.unixlib_of.contains_key(base),
    ensures
        ({
            let w = v.with_unixlib(base, table);
            let h = w.unixlib_handle(base);
            &&& h is Some
            &&& h->0 < w.unixlibs.len()
            &&& w.unixlibs[h->0 as int] == table
            &&& w.with_unixlib(base, table) == w
        }),
{
}

impl WinOs {
    /// Register the host half of the library at an address; returns its handle.
    pub fn register_unixlib(&mut self, module_base: u64, lib: Unixlib) -> (h: u64)
        requires
            old(self).wf(),
        ensures
            final(self).wf(),
            old(self).has_room() ==> final(self).has_room(),
            final(self).thunks == old(self).thunks,
            final(self)@ == old(self)@.with_unixlib(module_base, lib.table@),
            final(self)@.unixlib_handle(module_base) == Some(h),
    {
        let ghost v = self@;
        if let Some(h) = self.unixlib_of.get(&module_base) {
            return *h;
        }
        let h: u64 = self.unixlibs.len() as u64;
        let ghost t = lib.table@;
        self.unixlibs.push(lib);
        let _prev = self.unixlib_of.insert(module_base, h);
        assert(self@.unixlibs =~= v.unixlibs.push(t));
        assert(self@ =~= v.with_unixlib(module_base, t));
        h
    }

    /// Register the host half of `ntdll`.
    pub fn register_ntdll_unixlib(&mut self, ntdll_base: u64) -> (h: u64)
        requires
            old(self).wf(),
        ensures
            final(self).wf(),
            old(self).has_room() ==> final(self).has_room(),
            final(self).thunks == old(self).thunks,
            final(self)@ == old(self)@.with_unixlib(ntdll_base, ntdll_table()),
            final(self)@.unixlib_handle(ntdll_base) == Some(h),
    {
        let cs = crate::text::chars_of("ntdll");
        let lib = Unixlib { name: crate::text::string_of(&cs), table: ntdll_unixlib() };
        self.register_unixlib(ntdll_base, lib)
    }

    /// Keep a report of the guest.
    fn wine_dbg_write(&mut self, mem: &VirtualMemory, args: u64) -> (r: Result<u64, Fault>)
        requires
            old(self).wf(),
        ensures
            final(self).wf(),
            final(self).next_handle == old(self).next_handle,
            final(self).thunks == old(self).thunks,
            forall|c: CpuView|
                (ServerOut { os: final(self)@, cpu: c, mem: mem@, r }) == #[trigger] report_out(
                    old(self)@,
                    c,
                    mem@,
                    args,
                ),
    {
        if args == 0 {
            return Ok(0);
        }
        let p: u64 = match mem.read_u64(args) {
            Ok(p) => p,
            Err(f) => {
                return Err(f);
            },
        };
        let len: u64 = match mem.read_u64(at(args, 8)) {
            Ok(n) => n,
            Err(f) => {
                return Err(f);
            },
        };
        if p == 0 || len == 0 {
            return Ok(0);
        }
        let n: u64 = if len < REPORT_LIMIT {
            len
        } else {
            REPORT_LIMIT
        };
        let mut d = match read_report(mem, p, n) {
            Ok(d) => d,
            Err(f) => {
                return Err(f);
            },
        };
        if self.cfg.trace {
            self.traced.append(&mut d);
        }
        Ok(n)
    }

    /// Call entry `code` of the host half `handle`.
    pub fn dispatch_unix_call(
        &mut self,
        handle: u64,
        code: u32,
        args: u64,
        cpu: &mut CpuState,
        mem: &mut VirtualMemory,
    ) -> (r: Result<u64, Fault>)
        requires
            old(self).wf(),
            old(self).next_handle <= u64::MAX - 4,
        ensures
            final(self).wf(),
            final(self).thunks == old(self).thunks,
            (ServerOut { os: final(self)@, cpu: final(cpu)@, mem: final(mem)@, r }) == unix_call_out(
                old(self)@,
                old(cpu)@,
                old(mem)@,
                handle,
                code,
                args,
            ),
    {
        self.unix_call_blocked = false;
        let ghost v = self@;
        if handle >= self.unixlibs.len() as u64 {
            return Ok(STATUS_INVALID_PARAMETER);
        }
        let lib = &self.unixlibs[handle as usize];
        assert(v.unixlibs[handle as int] == lib.table@);
        if code as u64 >= lib.table.len() as u64 {
            return Ok(STATUS_INVALID_PARAMETER);
        }
        let e: UnixEntry = lib.table[code as usize];
        match e {
            UnixEntry::LoadSoDll => Ok(STATUS_DLL_NOT_FOUND),
            UnixEntry::UnwindBuiltinDll => Ok(STATUS_UNSUCCESSFUL),
            UnixEntry::WineDbgWrite => {
                let r = self.wine_dbg_write(mem, args);
                assert(report_out(v, cpu@, mem@, args).os == self@);
                r
            },
            UnixEntry::WineServerCall => self.wine_server_call(args, cpu, mem),
            UnixEntry::ServerFdToHandle => Ok(STATUS_NOT_IMPLEMENTED),
            UnixEntry::ServerHandleToFd => Ok(STATUS_NOT_IMPLEMENTED),
            UnixEntry::Spawnvp => Ok(STATUS_NOT_IMPLEMENTED),
            UnixEntry::SystemTimePrecise => {
                let mut t: Vec<Store> = Vec::new();
                push_opt(&mut t, store64(args, self.clock.filetime));
                assert(t@ =~= opt(s64(args, self.clock.filetime)));
                finish(mem, &t, STATUS_SUCCESS)
            },
        }
    }

    /// Serve a call of a host half: handle, entry and arguments are in registers.
    pub fn wine_unix_call(&mut self, cpu: &mut CpuState, mem: &mut VirtualMemory) -> (r: Result<
        u64,
        Fault,
    >)
        requires
            old(self).wf(),
            old(self).next_handle <= u64::MAX - 4,
        ensures
            final(self).wf(),
            final(self).thunks == old(self).thunks,
            (ServerOut { os: final(self)@, cpu: final(cpu)@, mem: final(mem)@, r }) == unix_call_out(
                old(self)@,
                old(cpu)@,
                old(mem)@,
                old(cpu)@.reg(Reg::Rcx),
                old(cpu)@.reg(Reg::Rdx) as u32,
                old(cpu)@.reg(Reg::R8),
            ),
    {
        let handle: u64 = cpu.reg(Reg::Rcx);
        let code: u32 = cpu.reg(Reg::Rdx) as u32;
        let args: u64 = cpu.reg(Reg::R8);
        self.dispatch_unix_call(handle, code, args, cpu, mem)
    }

    /// Serve `NtQueryVirtualMemory`.
    pub fn nt_query_virtual_memory(&self, cpu: &CpuState, mem: &mut VirtualMemory) -> (r: Result<
        u64,
        Fault,
    >)
        requires
            self.wf(),
        ensures
            final(mem)@ == query_memory_reply(self@, cpu@, old(mem)@).mem,
            r == query_memory_reply(self@, cpu@, old(mem)@).r,
    {
        let class: u64 = match sysarg(self.syscall_rsp, cpu, mem, 2) {
            Ok(c) => c,
            Err(f) => {
                return Err(f);
            },
        };
        if class as u32 == MEMORY_BASIC_INFORMATION {
            return self.vm.nt_query_virtual_memory_basic(
                self.cfg.is_64bit,
                self.syscall_rsp,
                cpu,
                mem,
            );
        }
        if class as u32 != MEMORY_WINE_UNIX_FUNCS {
            return Ok(STATUS_INVALID_PARAMETER);
        }
        let list: Vec<u64> = vec![1, 3, 4, 5];
        assert(list@ =~= seq![1u64, 3, 4, 5]);
        let a = match sysargs(self.syscall_rsp, cpu, mem, &list) {
            Ok(a) => a,
            Err(f) => {
                return Err(f);
            },
        };
        if a[1] == 0 || a[2] < 8 {
            return Ok(STATUS_INVALID_PARAMETER);
        }
        match self.unixlib_of.get(&a[0]) {
            None => Ok(STATUS_INVALID_ADDRESS),
            Some(h) => {
                let h: u64 = *h;
                let mut t: Vec<Store> = vec![store64(a[1], h)];
                assert(t@ =~= seq![s64(a@[1], h)]);
                push_opt(&mut t, store64(a[3], 8));
                finish(mem, &t, STATUS_SUCCESS)
            },
        }
    }
}

} // verus!
