//! What a served call leads to, and how its arguments are found.

use vstd::prelude::*;

use crate::cpu::{CpuState, CpuView, Reg};
use crate::mem::{at, ga, Fault, MemView, Store, Stored, VirtualMemory};

verus! {

/// How the interpreter goes on after a served call.
#[derive(Clone, Copy, Debug, PartialEq, Eq, Structural)]
pub enum Outcome {
    /// Return to the caller with this value.
    Return(u64),
    /// End the process with this code.
    Exit(i32),
    /// The handler has set up the registers itself: keep executing.
    Resume,
}

/// What the run loop does next.
#[derive(Clone, Copy, Debug, PartialEq, Eq, Structural)]
pub enum Exit {
    Continue,
    ProcessExit(i32),
}

/// What a served call leaves behind: the memory, and the answer.
pub struct Reply {
    pub mem: MemView,
    pub r: Result<u64, Fault>,
}

/// The answer `v`, with memory as it was.
pub open spec fn answer(m: MemView, v: u64) -> Reply {
    Reply { mem: m, r: Ok(v) }
}

/// A fault, with memory as it was.
pub open spec fn faulted(m: MemView, f: Fault) -> Reply {
    Reply { mem: m, r: Err(f) }
}

/// The answer `v` after a run of stores, or the first fault of the run.
pub open spec fn answer_after(s: Stored, v: u64) -> Reply {
    Reply {
        mem: s.mem,
        r: match s.fault {
            None => Ok(v),
            Some(f) => Err(f),
        },
    }
}

/// The answer `v` after the stores of a table.
pub open spec fn answer_stores(m: MemView, t: Seq<Store>, v: u64) -> Reply {
    answer_after(m.store_all(t), v)
}

/// What follows a run of stores, or the first fault of the run.
pub open spec fn follow(s: Stored, next: spec_fn(MemView) -> Reply) -> Reply {
    match s.fault {
        None => next(s.mem),
        Some(f) => Reply { mem: s.mem, r: Err(f) },
    }
}

/// Argument `i` of a Windows call. In 64-bit code the first four are in
/// registers and the others above the shadow space; in 32-bit code all are
/// four-byte slots above the return address.
pub open spec fn arg_at(is_64bit: bool, c: CpuView, m: MemView, i: u64) -> Result<u64, Fault> {
    if is_64bit {
        if i == 0 {
            Ok(c.reg(Reg::Rcx))
        } else if i == 1 {
            Ok(c.reg(Reg::Rdx))
        } else if i == 2 {
            Ok(c.reg(Reg::R8))
        } else if i == 3 {
            Ok(c.reg(Reg::R9))
        } else {
            m.r64(ga(c.rsp(), 0x28 + (i - 4) * 8))
        }
    } else {
        m.rptr(false, ga(c.rsp(), 4 + i * 4))
    }
}

/// Argument `i` of a Windows call.
pub fn arg(is_64bit: bool, cpu: &CpuState, mem: &VirtualMemory, i: u64) -> (r: Result<u64, Fault>)
    requires
        i < 64,
    ensures
        r == arg_at(is_64bit, cpu@, mem@, i),
{
    if is_64bit {
        if i == 0 {
            Ok(cpu.reg(Reg::Rcx))
        } else if i == 1 {
            Ok(cpu.reg(Reg::Rdx))
        } else if i == 2 {
            Ok(cpu.reg(Reg::R8))
        } else if i == 3 {
            Ok(cpu.reg(Reg::R9))
        } else {
            mem.read_u64(at(cpu.rsp(), 0x28 + (i - 4) * 8))
        }
    } else {
        mem.read_ptr(false, at(cpu.rsp(), 4 + i * 4))
    }
}

/// The arguments with the listed numbers, in that order, or the first fault.
pub open spec fn args_at(
    is_64bit: bool,
    c: CpuView,
    m: MemView,
    list: Seq<u64>,
) -> Result<Seq<u64>, Fault>
    decreases list.len(),
{
    if list.len() == 0 {
        Ok(Seq::empty())
    } else {
        match args_at(is_64bit, c, m, list.drop_last()) {
            Err(f) => Err(f),
            Ok(vs) => match arg_at(is_64bit, c, m, list.last()) {
                Err(f) => Err(f),
                Ok(v) => Ok(vs.push(v)),
            },
        }
    }
}

/// Whether every listed number is one that a call can have.
pub open spec fn list_ok(list: Seq<u64>) -> bool {
    forall|i: int| 0 <= i < list.len() ==> (#[trigger] list[i]) < 64
}

/// The arguments with the listed numbers, in that order, or the first fault.
pub fn args(is_64bit: bool, cpu: &CpuState, mem: &VirtualMemory, list: &Vec<u64>) -> (r: Result<
    Vec<u64>,
    Fault,
>)
    requires
        list_ok(list@),
    ensures
        match r {
            Ok(v) => args_at(is_64bit, cpu@, mem@, list@) == Ok::<Seq<u64>, Fault>(v@) && v.len()
                == list.len(),
            Err(f) => args_at(is_64bit, cpu@, mem@, list@) == Err::<Seq<u64>, Fault>(f),
        },
{
    let mut out: Vec<u64> = Vec::new();
    let mut i: usize = 0;
    assert(list@.take(0) =~= Seq::empty());
    assert(out@ =~= Seq::empty());
    while i < list.len()
        invariant
            i <= list.len(),
            list_ok(list@),
            out.len() == i,
            args_at(is_64bit, cpu@, mem@, list@.take(i as int)) == Ok::<Seq<u64>, Fault>(out@),
        decreases list.len() - i,
    {
        proof {
            assert(list@.take(i + 1).drop_last() =~= list@.take(i as int));
        }
        match arg(is_64bit, cpu, mem, list[i]) {
            Ok(v) => {
                out.push(v);
            },
            Err(f) => {
                proof {
                    lemma_args_stop(is_64bit, cpu@, mem@, list@, i + 1);
                }
                return Err(f);
            },
        }
        i = i + 1;
    }
    assert(list@.take(i as int) =~= list@);
    Ok(out)
}

/// Arguments whose prefix faults are read no further.
proof fn lemma_args_stop(is_64bit: bool, c: CpuView, m: MemView, list: Seq<u64>, k: int)
    requires
        0 <= k <= list.len(),
        args_at(is_64bit, c, m, list.take(k)) is Err,
    ensures
        args_at(is_64bit, c, m, list) == args_at(is_64bit, c, m, list.take(k)),
    decreases list.len() - k,
{
    if k < list.len() {
        assert(list.take(k + 1).drop_last() =~= list.take(k));
        lemma_args_stop(is_64bit, c, m, list, k + 1);
    } else {
        assert(list.take(k) =~= list);
    }
}

/// Argument `i` of an NT system call: the first four in R10, RDX, R8 and R9,
/// the others above the shadow space of the guest stack that was current when
/// the call was made.
pub open spec fn sysarg_at(guest_rsp: u64, c: CpuView, m: MemView, i: u64) -> Result<u64, Fault> {
    if i == 0 {
        Ok(c.reg(Reg::R10))
    } else if i == 1 {
        Ok(c.reg(Reg::Rdx))
    } else if i == 2 {
        Ok(c.reg(Reg::R8))
    } else if i == 3 {
        Ok(c.reg(Reg::R9))
    } else {
        m.r64(ga(guest_rsp, 0x28 + (i - 4) * 8))
    }
}

/// Argument `i` of an NT system call.
pub fn sysarg(guest_rsp: u64, cpu: &CpuState, mem: &VirtualMemory, i: u64) -> (r: Result<
    u64,
    Fault,
>)
    requires
        i < 64,
    ensures
        r == sysarg_at(guest_rsp, cpu@, mem@, i),
{
    if i == 0 {
        Ok(cpu.reg(Reg::R10))
    } else if i == 1 {
        Ok(cpu.reg(Reg::Rdx))
    } else if i == 2 {
        Ok(cpu.reg(Reg::R8))
    } else if i == 3 {
        Ok(cpu.reg(Reg::R9))
    } else {
        mem.read_u64(at(guest_rsp, 0x28 + (i - 4) * 8))
    }
}

/// The system-call arguments with the listed numbers, or the first fault.
pub open spec fn sysargs_at(guest_rsp: u64, c: CpuView, m: MemView, list: Seq<u64>) -> Result<
    Seq<u64>,
    Fault,
>
    decreases list.len(),
{
    if list.len() == 0 {
        Ok(Seq::empty())
    } else {
        match sysargs_at(guest_rsp, c, m, list.drop_last()) {
            Err(f) => Err(f),
            Ok(vs) => match sysarg_at(guest_rsp, c, m, list.last()) {
                Err(f) => Err(f),
                Ok(v) => Ok(vs.push(v)),
            },
        }
    }
}

/// The system-call arguments with the listed numbers, or the first fault.
pub fn sysargs(guest_rsp: u64, cpu: &CpuState, mem: &VirtualMemory, list: &Vec<u64>) -> (r: Result<
    Vec<u64>,
    Fault,
>)
    requires
        list_ok(list@),
    ensures
        match r {
            Ok(v) => sysargs_at(guest_rsp, cpu@, mem@, list@) == Ok::<Seq<u64>, Fault>(v@)
                && v.len() == list.len(),
            Err(f) => sysargs_at(guest_rsp, cpu@, mem@, list@) == Err::<Seq<u64>, Fault>(f),
        },
{
    let mut out: Vec<u64> = Vec::new();
    let mut i: usize = 0;
    assert(list@.take(0) =~= Seq::empty());
    assert(out@ =~= Seq::empty());
    while i < list.len()
        invariant
            i <= list.len(),
            list_ok(list@),
            out.len() == i,
            sysargs_at(guest_rsp, cpu@, mem@, list@.take(i as int)) == Ok::<Seq<u64>, Fault>(out@),
        decreases list.len() - i,
    {
        proof {
            assert(list@.take(i + 1).drop_last() =~= list@.take(i as int));
        }
        match sysarg(guest_rsp, cpu, mem, list[i]) {
            Ok(v) => {
                out.push(v);
            },
            Err(f) => {
                proof {
                    lemma_sysargs_stop(guest_rsp, cpu@, mem@, list@, i + 1);
                }
                return Err(f);
            },
        }
        i = i + 1;
    }
    assert(list@.take(i as int) =~= list@);
    Ok(out)
}

/// Arguments whose prefix faults are read no further.
proof fn lemma_sysargs_stop(guest_rsp: u64, c: CpuView, m: MemView, list: Seq<u64>, k: int)
    requires
        0 <= k <= list.len(),
        sysargs_at(guest_rsp, c, m, list.take(k)) is Err,
    ensures
        sysargs_at(guest_rsp, c, m, list) == sysargs_at(guest_rsp, c, m, list.take(k)),
    decreases list.len() - k,
{
    if k < list.len() {
        assert(list.take(k + 1).drop_last() =~= list.take(k));
        lemma_sysargs_stop(guest_rsp, c, m, list, k + 1);
    } else {
        assert(list.take(k) =~= list);
    }
}

} // verus!
