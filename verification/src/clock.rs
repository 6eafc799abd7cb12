//! The calls that tell the time.

use vstd::prelude::*;

use crate::call::{answer, answer_stores, arg, arg_at, faulted, sysargs, sysargs_at, Reply};
use crate::cpu::{CpuState, CpuView};
use crate::mem::{
    at, ga, opt, push_opt, s16, s64, store16, store64, Fault, MemView, Store, VirtualMemory,
};
use crate::ntreg::{finish, STATUS_SUCCESS};
use crate::time::{date_of, lemma_date_of, systemtime_fields, HostClock, QPC_FREQ};

verus! {

/// A pointer that leads nowhere was handed over.
pub const STATUS_ACCESS_VIOLATION: u64 = 0xC000_0005;

/// Milliseconds since the process started.
pub open spec fn tick_count(c: HostClock) -> u64 {
    c.ticks / 10_000
}

/// `GetTickCount`.
pub fn get_tick_count(clock: &HostClock) -> (r: u64)
    ensures
        r == tick_count(*clock),
{
    clock.ticks / 10_000
}

/// A call whose first argument is where a value goes, unless it is null.
pub open spec fn told(is_64bit: bool, c: CpuView, m: MemView, v: u64, result: u64) -> Reply {
    match arg_at(is_64bit, c, m, 0) {
        Err(f) => faulted(m, f),
        Ok(p) => answer_stores(m, opt(s64(p, v)), result),
    }
}

/// Tell a value to the first argument, unless it is null.
fn tell(is_64bit: bool, cpu: &CpuState, mem: &mut VirtualMemory, v: u64, result: u64) -> (r: Result<
    u64,
    Fault,
>)
    ensures
        final(mem)@ == told(is_64bit, cpu@, old(mem)@, v, result).mem,
        r == told(is_64bit, cpu@, old(mem)@, v, result).r,
{
    match arg(is_64bit, cpu, mem, 0) {
        Err(f) => Err(f),
        Ok(p) => {
            let mut t: Vec<Store> = Vec::new();
            push_opt(&mut t, store64(p, v));
            assert(t@ =~= opt(s64(p, v)));
            finish(mem, &t, result)
        },
    }
}

/// `QueryPerformanceCounter`: ticks of 100 ns since the process started.
pub fn query_performance_counter(
    clock: &HostClock,
    is_64bit: bool,
    cpu: &CpuState,
    mem: &mut VirtualMemory,
) -> (r: Result<u64, Fault>)
    ensures
        final(mem)@ == told(is_64bit, cpu@, old(mem)@, clock.ticks, 1).mem,
        r == told(is_64bit, cpu@, old(mem)@, clock.ticks, 1).r,
{
    tell(is_64bit, cpu, mem, clock.ticks, 1)
}

/// `QueryPerformanceFrequency`: ticks per second.
pub fn query_performance_frequency(is_64bit: bool, cpu: &CpuState, mem: &mut VirtualMemory) -> (r:
    Result<u64, Fault>)
    ensures
        final(mem)@ == told(is_64bit, cpu@, old(mem)@, QPC_FREQ, 1).mem,
        r == told(is_64bit, cpu@, old(mem)@, QPC_FREQ, 1).r,
{
    tell(is_64bit, cpu, mem, QPC_FREQ, 1)
}

/// `GetSystemTimeAsFileTime`.
pub fn get_system_time_as_filetime(
    clock: &HostClock,
    is_64bit: bool,
    cpu: &CpuState,
    mem: &mut VirtualMemory,
) -> (r: Result<u64, Fault>)
    ensures
        final(mem)@ == told(is_64bit, cpu@, old(mem)@, clock.filetime, 0).mem,
        r == told(is_64bit, cpu@, old(mem)@, clock.filetime, 0).r,
{
    tell(is_64bit, cpu, mem, clock.filetime, 0)
}

/// The fields of a date at `p`.
pub open spec fn date_table(p: u64, f: Seq<u16>) -> Seq<Store> {
    Seq::new(8, |i: int| s16(ga(p, 2 * i), f[i]))
}

/// `GetSystemTime` and `GetLocalTime`, for the date with the fields `f`.
pub open spec fn date_told(is_64bit: bool, c: CpuView, m: MemView, f: Seq<u16>) -> Reply {
    match arg_at(is_64bit, c, m, 0) {
        Err(e) => faulted(m, e),
        Ok(p) => if p == 0 {
            answer(m, 0)
        } else {
            answer_stores(m, date_table(p, f), 0)
        },
    }
}

/// `GetSystemTime` and `GetLocalTime`: the date in UTC.
pub fn get_system_time(
    clock: &HostClock,
    is_64bit: bool,
    cpu: &CpuState,
    mem: &mut VirtualMemory,
) -> (r: Result<u64, Fault>)
    ensures
        (Reply { mem: final(mem)@, r }) == date_told(
            is_64bit,
            cpu@,
            old(mem)@,
            date_of(clock.filetime),
        ),
{
    let f = systemtime_fields(clock.filetime);
    let ghost fv = f@;
    proof {
        lemma_date_of(clock.filetime, fv);
    }
    let p: u64 = match arg(is_64bit, cpu, mem, 0) {
        Ok(p) => p,
        Err(e) => {
            return Err(e);
        },
    };
    if p == 0 {
        return Ok(0);
    }
    let t: Vec<Store> = vec![
        store16(at(p, 0), f[0]),
        store16(at(p, 2), f[1]),
        store16(at(p, 4), f[2]),
        store16(at(p, 6), f[3]),
        store16(at(p, 8), f[4]),
        store16(at(p, 10), f[5]),
        store16(at(p, 12), f[6]),
        store16(at(p, 14), f[7]),
    ];
    assert(t@ =~= date_table(p, fv));
    finish(mem, &t, 0)
}

/// `NtQuerySystemTime`.
pub open spec fn nt_time_reply(clock: HostClock, rsp: u64, c: CpuView, m: MemView) -> Reply {
    match sysargs_at(rsp, c, m, seq![0]) {
        Err(f) => faulted(m, f),
        Ok(a) => if a[0] == 0 {
            answer(m, STATUS_ACCESS_VIOLATION)
        } else {
            answer_stores(m, seq![s64(a[0], clock.filetime)], STATUS_SUCCESS)
        },
    }
}

/// Serve `NtQuerySystemTime`.
pub fn nt_query_system_time(clock: &HostClock, rsp: u64, cpu: &CpuState, mem: &mut VirtualMemory) -> (r:
    Result<u64, Fault>)
    ensures
        final(mem)@ == nt_time_reply(*clock, rsp, cpu@, old(mem)@).mem,
        r == nt_time_reply(*clock, rsp, cpu@, old(mem)@).r,
{
    let list: Vec<u64> = vec![0];
    assert(list@ =~= seq![0u64]);
    let a = match sysargs(rsp, cpu, mem, &list) {
        Ok(a) => a,
        Err(f) => {
            return Err(f);
        },
    };
    if a[0] == 0 {
        return Ok(STATUS_ACCESS_VIOLATION);
    }
    let t: Vec<Store> = vec![store64(a[0], clock.filetime)];
    assert(t@ =~= seq![s64(a@[0], clock.filetime)]);
    finish(mem, &t, STATUS_SUCCESS)
}

/// `NtQueryPerformanceCounter`: the ticks, and their frequency where it is asked
/// for.
pub open spec fn nt_counter_reply(clock: HostClock, rsp: u64, c: CpuView, m: MemView) -> Reply {
    match sysargs_at(rsp, c, m, seq![0, 1]) {
        Err(f) => faulted(m, f),
        Ok(a) => if a[0] == 0 {
            answer(m, STATUS_ACCESS_VIOLATION)
        } else {
            answer_stores(
                m,
                seq![s64(a[0], clock.ticks)] + opt(s64(a[1], QPC_FREQ)),
                STATUS_SUCCESS,
            )
        },
    }
}

/// Serve `NtQueryPerformanceCounter`.
pub fn nt_query_performance_counter(
    clock: &HostClock,
    rsp: u64,
    cpu: &CpuState,
    mem: &mut VirtualMemory,
) -> (r: Result<u64, Fault>)
    ensures
        final(mem)@ == nt_counter_reply(*clock, rsp, cpu@, old(mem)@).mem,
        r == nt_counter_reply(*clock, rsp, cpu@, old(mem)@).r,
{
    let list: Vec<u64> = vec![0, 1];
    assert(list@ =~= seq![0u64, 1]);
    let a = match sysargs(rsp, cpu, mem, &list) {
        Ok(a) => a,
        Err(f) => {
            return Err(f);
        },
    };
    if a[0] == 0 {
        return Ok(STATUS_ACCESS_VIOLATION);
    }
    let mut t: Vec<Store> = vec![store64(a[0], clock.ticks)];
    assert(t@ =~= seq![s64(a@[0], clock.ticks)]);
    push_opt(&mut t, store64(a[1], QPC_FREQ));
    finish(mem, &t, STATUS_SUCCESS)
}

} // verus!
