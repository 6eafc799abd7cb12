//! The memory calls of the Windows API and their system calls.

use vstd::prelude::*;

use crate::call::{answer, answer_stores, args, args_at, faulted, sysargs, sysargs_at, Reply};
use crate::cpu::{CpuState, CpuView};
use crate::mem::{
    opt, push_opt, s32, s64, store32, store64, Fault, MemView, Store, VirtualMemory,
};
use crate::ntreg::{finish, STATUS_INVALID_PARAMETER, STATUS_SUCCESS};
use crate::util::{lemma_round_up, max_int};
use crate::vm::{
    alloc_out, free_out, info_size, info_stores, info_table, protect_out, region_size, VmState,
    VmView, PAGE,
};

verus! {

pub const STATUS_NO_MEMORY: u64 = 0xC000_0017;

/// What a memory call leads to.
pub struct NtVmOut {
    pub vm: VmView,
    pub error: u32,
    pub reply: Reply,
}

/// `VirtualAlloc`: the base of the region, or 0 and an error where it cannot be
/// backed.
#[verifier::opaque]
pub open spec fn valloc_out(v: VmView, error: u32, is_64bit: bool, c: CpuView, m: MemView) -> NtVmOut {
    match args_at(is_64bit, c, m, seq![0, 1, 2, 3]) {
        Err(f) => NtVmOut { vm: v, error, reply: faulted(m, f) },
        Ok(a) => {
            let o = alloc_out(v, m, a[0], a[1], a[2] as u32, a[3] as u32);
            NtVmOut {
                vm: o.vm,
                error: if o.base is None {
                    8
                } else {
                    error
                },
                reply: answer(
                    o.mem,
                    match o.base {
                        Some(b) => b,
                        None => 0,
                    },
                ),
            }
        },
    }
}

/// `VirtualFree`.
#[verifier::opaque]
pub open spec fn vfree_out(v: VmView, error: u32, is_64bit: bool, c: CpuView, m: MemView) -> NtVmOut {
    match args_at(is_64bit, c, m, seq![0, 2]) {
        Err(f) => NtVmOut { vm: v, error, reply: faulted(m, f) },
        Ok(a) => {
            let o = free_out(v, m, a[0], a[1] as u32);
            NtVmOut { vm: o.0, error, reply: answer(o.1, 1) }
        },
    }
}

/// `VirtualProtect`: the previous protection goes out.
#[verifier::opaque]
pub open spec fn vprotect_out(v: VmView, error: u32, is_64bit: bool, c: CpuView, m: MemView) -> NtVmOut {
    match args_at(is_64bit, c, m, seq![0, 2, 3]) {
        Err(f) => NtVmOut { vm: v, error, reply: faulted(m, f) },
        Ok(a) => {
            let o = protect_out(v, a[0], a[1] as u32);
            NtVmOut { vm: o.0, error, reply: answer_stores(m, opt(s32(a[2], o.1)), 1) }
        },
    }
}

/// A query record at `buf`: its size, or 0 without a buffer.
pub open spec fn query_reply(v: VmView, is_64bit: bool, m: MemView, addr: u64, buf: u64) -> Reply {
    if buf == 0 {
        answer(m, 0)
    } else {
        answer_stores(m, info_table(is_64bit, buf, v.info(m, addr)), info_size(is_64bit))
    }
}

/// `VirtualQuery`.
#[verifier::opaque]
pub open spec fn vquery_reply(v: VmView, is_64bit: bool, c: CpuView, m: MemView) -> Reply {
    match args_at(is_64bit, c, m, seq![0, 1]) {
        Err(f) => faulted(m, f),
        Ok(a) => query_reply(v, is_64bit, m, a[0], a[1]),
    }
}

/// `NtAllocateVirtualMemory`: base and size are taken from the caller's variables
/// and written back.
pub open spec fn nt_alloc_out(v: VmView, error: u32, rsp: u64, c: CpuView, m: MemView) -> NtVmOut {
    match sysargs_at(rsp, c, m, seq![1, 3, 4, 5]) {
        Err(f) => NtVmOut { vm: v, error, reply: faulted(m, f) },
        Ok(a) => if a[0] == 0 || a[1] == 0 {
            NtVmOut { vm: v, error, reply: answer(m, STATUS_INVALID_PARAMETER) }
        } else {
            match m.r64(a[0]) {
                Err(f) => NtVmOut { vm: v, error, reply: faulted(m, f) },
                Ok(addr) => match m.r64(a[1]) {
                    Err(f) => NtVmOut { vm: v, error, reply: faulted(m, f) },
                    Ok(size) => {
                        let o = alloc_out(v, m, addr, size, a[2] as u32, a[3] as u32);
                        if o.base is None || o.base == Some(0u64) {
                            NtVmOut {
                                vm: o.vm,
                                error: if o.base is None {
                                    8
                                } else {
                                    error
                                },
                                reply: answer(o.mem, STATUS_NO_MEMORY),
                            }
                        } else {
                            NtVmOut {
                                vm: o.vm,
                                error,
                                reply: answer_stores(
                                    o.mem,
                                    seq![
                                        s64(a[0], o.base->0),
                                        s64(a[1], region_size(size) as u64),
                                    ],
                                    STATUS_SUCCESS,
                                ),
                            }
                        }
                    },
                },
            }
        },
    }
}

/// `NtFreeVirtualMemory`: the bounds of the reservation that held the address go
/// back to the caller.
pub open spec fn nt_free_out(v: VmView, error: u32, rsp: u64, c: CpuView, m: MemView) -> NtVmOut {
    match sysargs_at(rsp, c, m, seq![1, 2, 3]) {
        Err(f) => NtVmOut { vm: v, error, reply: faulted(m, f) },
        Ok(a) => if a[0] == 0 {
            NtVmOut { vm: v, error, reply: answer(m, STATUS_INVALID_PARAMETER) }
        } else {
            match m.r64(a[0]) {
                Err(f) => NtVmOut { vm: v, error, reply: faulted(m, f) },
                Ok(addr) => {
                    let o = free_out(v, m, addr, a[2] as u32);
                    let t = match v.holder(addr) {
                        Some(i) => seq![s64(a[0], v.allocs[i].base)] + opt(
                            s64(a[1], v.allocs[i].size),
                        ),
                        None => Seq::empty(),
                    };
                    NtVmOut { vm: o.0, error, reply: answer_stores(o.1, t, STATUS_SUCCESS) }
                },
            }
        },
    }
}

/// `NtProtectVirtualMemory`.
pub open spec fn nt_protect_out(v: VmView, error: u32, rsp: u64, c: CpuView, m: MemView) -> NtVmOut {
    match sysargs_at(rsp, c, m, seq![1, 3, 4]) {
        Err(f) => NtVmOut { vm: v, error, reply: faulted(m, f) },
        Ok(a) => if a[0] == 0 {
            NtVmOut { vm: v, error, reply: answer(m, STATUS_INVALID_PARAMETER) }
        } else {
            match m.r64(a[0]) {
                Err(f) => NtVmOut { vm: v, error, reply: faulted(m, f) },
                Ok(addr) => {
                    let o = protect_out(v, addr, a[1] as u32);
                    NtVmOut {
                        vm: o.0,
                        error,
                        reply: answer_stores(m, opt(s32(a[2], o.1)), STATUS_SUCCESS),
                    }
                },
            }
        },
    }
}

/// `NtQueryVirtualMemory` for basic information.
pub open spec fn nt_query_basic_reply(
    v: VmView,
    is_64bit: bool,
    rsp: u64,
    c: CpuView,
    m: MemView,
) -> Reply {
    match sysargs_at(rsp, c, m, seq![1, 3, 4, 5]) {
        Err(f) => faulted(m, f),
        Ok(a) => if a[1] == 0 || a[2] < info_size(is_64bit) {
            answer(m, STATUS_INVALID_PARAMETER)
        } else {
            let w = query_reply(v, is_64bit, m, a[0], a[1]);
            match w.r {
                Err(_) => w,
                Ok(n) => answer_stores(w.mem, opt(s64(a[3], n)), STATUS_SUCCESS),
            }
        },
    }
}

impl VmState {
    /// `VirtualAlloc`.
    pub fn virtual_alloc(
        &mut self,
        error: &mut u32,
        is_64bit: bool,
        cpu: &CpuState,
        mem: &mut VirtualMemory,
    ) -> (r: Result<u64, Fault>)
        requires
            old(self).wf(),
        ensures
            final(self).wf(),
            ({
                let o = valloc_out(old(self)@, *old(error), is_64bit, cpu@, old(mem)@);
                &&& final(self)@ == o.vm
                &&& *final(error) == o.error
                &&& final(mem)@ == o.reply.mem
                &&& r == o.reply.r
            }),
    {
        proof {
            reveal(valloc_out);
        }
        let list: Vec<u64> = vec![0, 1, 2, 3];
        assert(list@ =~= seq![0u64, 1, 2, 3]);
        let a = match args(is_64bit, cpu, mem, &list) {
            Ok(v) => v,
            Err(f) => {
                return Err(f);
            },
        };
        match self.alloc_region(mem, a[0], a[1], a[2] as u32, a[3] as u32) {
            Some(b) => Ok(b),
            None => {
                *error = 8;
                Ok(0)
            },
        }
    }

    /// `VirtualFree`.
    pub fn virtual_free(
        &mut self,
        error: &mut u32,
        is_64bit: bool,
        cpu: &CpuState,
        mem: &mut VirtualMemory,
    ) -> (r: Result<u64, Fault>)
        requires
            old(self).wf(),
        ensures
            final(self).wf(),
            ({
                let o = vfree_out(old(self)@, *old(error), is_64bit, cpu@, old(mem)@);
                &&& final(self)@ == o.vm
                &&& *final(error) == o.error
                &&& final(mem)@ == o.reply.mem
                &&& r == o.reply.r
            }),
    {
        proof {
            reveal(vfree_out);
        }
        let list: Vec<u64> = vec![0, 2];
        assert(list@ =~= seq![0u64, 2]);
        let a = match args(is_64bit, cpu, mem, &list) {
            Ok(v) => v,
            Err(f) => {
                return Err(f);
            },
        };
        self.free_region(mem, a[0], a[1] as u32);
        Ok(1)
    }

    /// `VirtualProtect`.
    pub fn virtual_protect(
        &mut self,
        error: &mut u32,
        is_64bit: bool,
        cpu: &CpuState,
        mem: &mut VirtualMemory,
    ) -> (r: Result<u64, Fault>)
        requires
            old(self).wf(),
        ensures
            final(self).wf(),
            ({
                let o = vprotect_out(old(self)@, *old(error), is_64bit, cpu@, old(mem)@);
                &&& final(self)@ == o.vm
                &&& *final(error) == o.error
                &&& final(mem)@ == o.reply.mem
                &&& r == o.reply.r
            }),
    {
        proof {
            reveal(vprotect_out);
        }
        let list: Vec<u64> = vec![0, 2, 3];
        assert(list@ =~= seq![0u64, 2, 3]);
        let a = match args(is_64bit, cpu, mem, &list) {
            Ok(v) => v,
            Err(f) => {
                return Err(f);
            },
        };
        let prev: u32 = self.protect_region(a[0], a[1] as u32);
        let mut t: Vec<Store> = Vec::new();
        push_opt(&mut t, store32(a[2], prev));
        assert(t@ =~= opt(s32(a[2], prev)));
        finish(mem, &t, 1)
    }

    /// Write the record of a query.
    fn query_region(&self, is_64bit: bool, mem: &mut VirtualMemory, addr: u64, buf: u64) -> (r: Result<
        u64,
        Fault,
    >)
        requires
            self.wf(),
        ensures
            final(mem)@ == query_reply(self@, is_64bit, old(mem)@, addr, buf).mem,
            r == query_reply(self@, is_64bit, old(mem)@, addr, buf).r,
    {
        if buf == 0 {
            return Ok(0);
        }
        let info = self.query(mem, addr);
        let t = info_stores(is_64bit, buf, info);
        finish(
            mem,
            &t,
            if is_64bit {
                0x30
            } else {
                0x1C
            },
        )
    }

    /// `VirtualQuery`.
    pub fn virtual_query(&self, is_64bit: bool, cpu: &CpuState, mem: &mut VirtualMemory) -> (r: Result<
        u64,
        Fault,
    >)
        requires
            self.wf(),
        ensures
            final(mem)@ == vquery_reply(self@, is_64bit, cpu@, old(mem)@).mem,
            r == vquery_reply(self@, is_64bit, cpu@, old(mem)@).r,
    {
        proof {
            reveal(vquery_reply);
        }
        let list: Vec<u64> = vec![0, 1];
        assert(list@ =~= seq![0u64, 1]);
        let a = match args(is_64bit, cpu, mem, &list) {
            Ok(v) => v,
            Err(f) => {
                return Err(f);
            },
        };
        self.query_region(is_64bit, mem, a[0], a[1])
    }

    /// `NtAllocateVirtualMemory`.
    pub fn nt_allocate_virtual_memory(
        &mut self,
        error: &mut u32,
        rsp: u64,
        cpu: &CpuState,
        mem: &mut VirtualMemory,
    ) -> (r: Result<u64, Fault>)
        requires
            old(self).wf(),
        ensures
            final(self).wf(),
            ({
                let o = nt_alloc_out(old(self)@, *old(error), rsp, cpu@, old(mem)@);
                &&& final(self)@ == o.vm
                &&& *final(error) == o.error
                &&& final(mem)@ == o.reply.mem
                &&& r == o.reply.r
            }),
    {
        let list: Vec<u64> = vec![1, 3, 4, 5];
        assert(list@ =~= seq![1u64, 3, 4, 5]);
        let a = match sysargs(rsp, cpu, mem, &list) {
            Ok(v) => v,
            Err(f) => {
                return Err(f);
            },
        };
        if a[0] == 0 || a[1] == 0 {
            return Ok(STATUS_INVALID_PARAMETER);
        }
        let addr: u64 = match mem.read_u64(a[0]) {
            Ok(v) => v,
            Err(f) => {
                return Err(f);
            },
        };
        let size: u64 = match mem.read_u64(a[1]) {
            Ok(v) => v,
            Err(f) => {
                return Err(f);
            },
        };
        let base: u64 = match self.alloc_region(mem, addr, size, a[2] as u32, a[3] as u32) {
            Some(b) => b,
            None => {
                *error = 8;
                return Ok(STATUS_NO_MEMORY);
            },
        };
        if base == 0 {
            return Ok(STATUS_NO_MEMORY);
        }
        let rounded: u64 = round_request(size);
        let t: Vec<Store> = vec![store64(a[0], base), store64(a[1], rounded)];
        assert(t@ =~= seq![s64(a[0], base), s64(a[1], region_size(size) as u64)]);
        finish(mem, &t, STATUS_SUCCESS)
    }

    /// `NtFreeVirtualMemory`.
    pub fn nt_free_virtual_memory(
        &mut self,
        error: &mut u32,
        rsp: u64,
        cpu: &CpuState,
        mem: &mut VirtualMemory,
    ) -> (r: Result<u64, Fault>)
        requires
            old(self).wf(),
        ensures
            final(self).wf(),
            ({
                let o = nt_free_out(old(self)@, *old(error), rsp, cpu@, old(mem)@);
                &&& final(self)@ == o.vm
                &&& *final(error) == o.error
                &&& final(mem)@ == o.reply.mem
                &&& r == o.reply.r
            }),
    {
        let list: Vec<u64> = vec![1, 2, 3];
        assert(list@ =~= seq![1u64, 2, 3]);
        let a = match sysargs(rsp, cpu, mem, &list) {
            Ok(v) => v,
            Err(f) => {
                return Err(f);
            },
        };
        if a[0] == 0 {
            return Ok(STATUS_INVALID_PARAMETER);
        }
        let addr: u64 = match mem.read_u64(a[0]) {
            Ok(v) => v,
            Err(f) => {
                return Err(f);
            },
        };
        let mut t: Vec<Store> = Vec::new();
        match self.find_holder(addr) {
            Some(i) => {
                let base: u64 = self.allocs[i].base;
                let size: u64 = self.allocs[i].size;
                t.push(store64(a[0], base));
                push_opt(&mut t, store64(a[1], size));
                assert(t@ =~= seq![s64(a[0], base)] + opt(s64(a[1], size)));
            },
            None => {
                assert(t@ =~= Seq::empty());
            },
        }
        self.free_region(mem, addr, a[2] as u32);
        finish(mem, &t, STATUS_SUCCESS)
    }

    /// `NtProtectVirtualMemory`.
    pub fn nt_protect_virtual_memory(
        &mut self,
        error: &mut u32,
        rsp: u64,
        cpu: &CpuState,
        mem: &mut VirtualMemory,
    ) -> (r: Result<u64, Fault>)
        requires
            old(self).wf(),
        ensures
            final(self).wf(),
            ({
                let o = nt_protect_out(old(self)@, *old(error), rsp, cpu@, old(mem)@);
                &&& final(self)@ == o.vm
                &&& *final(error) == o.error
                &&& final(mem)@ == o.reply.mem
                &&& r == o.reply.r
            }),
    {
        let list: Vec<u64> = vec![1, 3, 4];
        assert(list@ =~= seq![1u64, 3, 4]);
        let a = match sysargs(rsp, cpu, mem, &list) {
            Ok(v) => v,
            Err(f) => {
                return Err(f);
            },
        };
        if a[0] == 0 {
            return Ok(STATUS_INVALID_PARAMETER);
        }
        let addr: u64 = match mem.read_u64(a[0]) {
            Ok(v) => v,
            Err(f) => {
                return Err(f);
            },
        };
        let prev: u32 = self.protect_region(addr, a[1] as u32);
        let mut t: Vec<Store> = Vec::new();
        push_opt(&mut t, store32(a[2], prev));
        assert(t@ =~= opt(s32(a[2], prev)));
        finish(mem, &t, STATUS_SUCCESS)
    }

    /// `NtQueryVirtualMemory` for basic information.
    pub fn nt_query_virtual_memory_basic(
        &self,
        is_64bit: bool,
        rsp: u64,
        cpu: &CpuState,
        mem: &mut VirtualMemory,
    ) -> (r: Result<u64, Fault>)
        requires
            self.wf(),
        ensures
            final(mem)@ == nt_query_basic_reply(self@, is_64bit, rsp, cpu@, old(mem)@).mem,
            r == nt_query_basic_reply(self@, is_64bit, rsp, cpu@, old(mem)@).r,
    {
        let list: Vec<u64> = vec![1, 3, 4, 5];
        assert(list@ =~= seq![1u64, 3, 4, 5]);
        let a = match sysargs(rsp, cpu, mem, &list) {
            Ok(v) => v,
            Err(f) => {
                return Err(f);
            },
        };
        let need: u64 = if is_64bit {
            0x30
        } else {
            0x1C
        };
        if a[1] == 0 || a[2] < need {
            return Ok(STATUS_INVALID_PARAMETER);
        }
        let n: u64 = match self.query_region(is_64bit, mem, a[0], a[1]) {
            Ok(n) => n,
            Err(f) => {
                return Err(f);
            },
        };
        let mut t: Vec<Store> = Vec::new();
        push_opt(&mut t, store64(a[3], n));
        assert(t@ =~= opt(s64(a[3], n)));
        finish(mem, &t, STATUS_SUCCESS)
    }
}

/// The page-rounded size of a request, modulo 2^64.
fn round_request(size: u64) -> (r: u64)
    ensures
        r == region_size(size) as u64,
{
    proof {
        lemma_round_up(max_int(size as int, 1), PAGE as int);
    }
    let want: u64 = if size == 0 {
        1
    } else {
        size
    };
    let pages: u64 = (want - 1) / 0x1000 + 1;
    (pages as u128 * 0x1000) as u64
}

// ---- laws -------------------------------------------------------------------

/// A protection that was set is what the next change reports as the previous one
/// and what a query of the committed region reports.
pub proof fn lemma_protect_reported(v: VmView, m: MemView, addr: u64, p: u32, q: u32)
    requires
        addr % 0x1000 == 0,
        v.holder(addr) is Some,
    ensures
        protect_out(protect_out(v, addr, p).0, addr, q).1 == p,
        v.allocs[v.holder(addr)->0].committed ==> protect_out(v, addr, p).0.info(m, addr).protect
            == p,
{
    let i = v.holder(addr)->0;
    crate::util::lemma_first_index(v.allocs, crate::vm::holding(addr as int));
    let w = protect_out(v, addr, p).0;
    assert(crate::util::round_down(addr as int, PAGE as int) == addr);
    assert forall|j: int| 0 <= j < i implies !crate::vm::holding(addr as int)(
        #[trigger] w.allocs[j],
    ) by {
        assert(!crate::vm::holding(addr as int)(v.allocs[j]));
    }
    assert(crate::vm::holding(addr as int)(v.allocs[i]));
    crate::util::lemma_first_index_is(w.allocs, crate::vm::holding(addr as int), i);
}

} // verus!
