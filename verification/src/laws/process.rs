//! The process: its end, its clocks, its output, and what it is called back with.

use vstd::prelude::*;

use crate::api::Api;
use crate::call::{arg_at, Outcome};
use crate::cb::{align16, framed, lemma_call_frame};
use crate::cpu::{CpuView, Reg};
use crate::dispatch::dispatch_out;
use crate::env::{env_units, env_units_upto, VarView};
use crate::gstr::bytes_from;
use crate::host::HostReply;
use crate::laws::{given, gives, lemma_fixed_serves, lemma_read_3, lemma_read_4, lemma_told};
use crate::laws::served::{
    serves_crt_exit, serves_exit_process, serves_fputc, serves_fputs, serves_fwrite,
    serves_get_std_handle, serves_get_system_time_as_file_time, serves_puts,
    serves_query_performance_counter, serves_query_performance_frequency, serves_return_exit,
    serves_set_last_error, serves_terminate_process, serves_write_file,
};
use crate::loader::exit_targets;
use crate::mem::{ga, lemma_pow256, lemma_store_all_get, opt, s64, Fault, MemView};
use crate::os::OsView;
use crate::text::utf16;
use crate::time::{day_number, days_before_month, is_systemtime};

verus! {

// ---- ends -------------------------------------------------------------------

/// A call that ends the process ends it with the low half of its code as a signed number:
/// `ExitProcess` and `exit` take the code first, `TerminateProcess` behind the process, and a
/// program that returns leaves it in the result register.
pub proof fn lemma_ends(
    v: OsView,
    c: CpuView,
    m: MemView,
    host: HostReply,
    a: Seq<u64>,
    code: i32,
)
    requires
        given(v, c, m, a),
        a.len() == 2,
    ensures
        a[0] as u32 == code as u32 && exit_targets(v.dll.modules).len() == 0 ==> dispatch_out(
            v,
            Api::ExitProcess,
            c,
            m,
            host,
        ).r == Ok::<Outcome, Fault>(Outcome::Exit(code)),
        a[0] as u32 == code as u32 ==> dispatch_out(v, Api::CrtExit, c, m, host).r == Ok::<
            Outcome,
            Fault,
        >(Outcome::Exit(code)),
        a[1] as u32 == code as u32 ==> dispatch_out(v, Api::TerminateProcess, c, m, host).r == Ok::<
            Outcome,
            Fault,
        >(Outcome::Exit(code)),
        c.reg(Reg::Rax) as u32 == code as u32 ==> dispatch_out(v, Api::ReturnExit, c, m, host).r
            == Ok::<Outcome, Fault>(Outcome::Exit(code)),
{
    reveal(crate::process::exit_now_out);
    reveal(crate::process::exit_process_out);
    serves_exit_process(v, c, m, host);
    serves_crt_exit(v, c, m, host);
    serves_terminate_process(v, c, m, host);
    serves_return_exit(v, c, m, host);
    assert(arg_at(v.wide(), c, m, 0) == Ok::<u64, Fault>(a[0]));
    assert(arg_at(v.wide(), c, m, 1) == Ok::<u64, Fault>(a[1]));
    assert((code as u32) as i32 == code) by (bit_vector);
}

/// `GetLastError` answers with what `SetLastError` was given last.
pub proof fn lemma_last_error(
    v: OsView,
    c: CpuView,
    m: MemView,
    host: HostReply,
    e: u64,
    d: CpuView,
    n: MemView,
)
    requires
        given(v, c, m, seq![e]),
    ensures
        gives(
            dispatch_out(
                dispatch_out(v, Api::SetLastError, c, m, host).os,
                Api::GetLastError,
                d,
                n,
                host,
            ),
            (e as u32) as u64,
        ),
{
    serves_set_last_error(v, c, m, host);
    assert(seq![e][0] == e);
    let w = dispatch_out(v, Api::SetLastError, c, m, host).os;
    lemma_fixed_serves(w, Api::GetLastError, d, n, host);
}

// ---- time -------------------------------------------------------------------

proof fn lemma_told_wide(m: MemView, p: u64, x: u64)
    requires
        p != 0,
        m.can_read(p as int, 8),
        m.store_all(opt(s64(p, x))).fault is None,
    ensures
        m.store_all(opt(s64(p, x))).mem.r64(p) == Ok::<u64, Fault>(x),
{
    let t = seq![s64(p, x)];
    assert(opt(s64(p, x)) =~= t);
    lemma_pow256();
    lemma_store_all_get(m, t, 0);
}

/// The counters agree: the performance counter runs as often a second as its frequency says,
/// the tick count is the milliseconds of it, and the system time is the wall clock.
pub proof fn lemma_clocks(
    v: OsView,
    c: CpuView,
    m: MemView,
    host: HostReply,
    p: u64,
    x: u64,
)
    requires
        given(v, c, m, seq![p]),
        p != 0,
        m.can_read(p as int, 8),
        gives(dispatch_out(v, Api::GetTickCount, c, m, host), x),
        dispatch_out(v, Api::QueryPerformanceCounter, c, m, host).r is Ok,
        dispatch_out(v, Api::QueryPerformanceFrequency, c, m, host).r is Ok,
        dispatch_out(v, Api::GetSystemTimeAsFileTime, c, m, host).r is Ok,
    ensures
        ({
            let count = dispatch_out(v, Api::QueryPerformanceCounter, c, m, host).mem.r64(p);
            let rate = dispatch_out(v, Api::QueryPerformanceFrequency, c, m, host).mem.r64(p);
            let time = dispatch_out(v, Api::GetSystemTimeAsFileTime, c, m, host).mem.r64(p);
            &&& count == Ok::<u64, Fault>(v.clock.ticks)
            &&& rate == Ok::<u64, Fault>(10_000_000)
            &&& time == Ok::<u64, Fault>(v.clock.filetime)
            &&& x == count->Ok_0 * 1000 / rate->Ok_0 as int
            &&& gives(dispatch_out(v, Api::QueryPerformanceCounter, c, m, host), 1)
            &&& gives(dispatch_out(v, Api::QueryPerformanceFrequency, c, m, host), 1)
        }),
{
    serves_query_performance_counter(v, c, m, host);
    serves_query_performance_frequency(v, c, m, host);
    serves_get_system_time_as_file_time(v, c, m, host);
    lemma_fixed_serves(v, Api::GetTickCount, c, m, host);
    assert(seq![p][0] == p);
    lemma_told_wide(m, p, v.clock.ticks);
    lemma_told_wide(m, p, 10_000_000);
    lemma_told_wide(m, p, v.clock.filetime);
    let t = v.clock.ticks as int;
    assert(t / 10_000 == t * 1000 / 10_000_000);
}

/// The fields of a date tell the time they were made of, to the millisecond: the days since
/// the first of January 1601, a Monday, and the time of that day.
pub proof fn lemma_date_tells_time(ft: u64, f: Seq<u16>)
    requires
        is_systemtime(ft, f),
    ensures
        ({
            let days = day_number(f[0] as int, f[1] as int, f[3] as int) - day_number(1601, 1, 1);
            &&& ft / 10_000 == ((days * 24 + f[4]) * 60 + f[5]) * 60_000 + f[6] * 1000 + f[7]
            &&& f[2] == (1 + days) % 7
            &&& f[4] < 24 && f[5] < 60 && f[6] < 60 && f[7] < 1000
        }),
{
    assert(days_before_month(1601, 1) == 0);
    assert(day_number(1601, 1, 1) == 584_388);
}

/// A year has 365 days, and one more every fourth year, but not every hundredth, unless it is
/// a four-hundredth.
pub proof fn lemma_year_length(y: int)
    requires
        1 <= y,
    ensures
        day_number(y + 1, 1, 1) - day_number(y, 1, 1) == if y % 400 == 0 || (y % 4 == 0 && y % 100
            != 0) {
            366int
        } else {
            365
        },
{
    assert(days_before_month(y, 1) == 0);
    assert(days_before_month(y + 1, 1) == 0);
    assert(y / 4 == (y - 1) / 4 + if y % 4 == 0 {
        1int
    } else {
        0
    });
    assert(y / 100 == (y - 1) / 100 + if y % 100 == 0 {
        1int
    } else {
        0
    });
    assert(y / 400 == (y - 1) / 400 + if y % 400 == 0 {
        1int
    } else {
        0
    });
    assert(y % 400 == 0 ==> y % 100 == 0);
    assert(y % 100 == 0 ==> y % 4 == 0);
}

// ---- the console ------------------------------------------------------------

/// What is written to the handle of standard error goes there, and what is written to that of
/// standard output, or to a handle that is no file, goes to standard output: the bytes of the
/// buffer, behind what was written before.
pub proof fn lemma_writes_console(
    v: OsView,
    c: CpuView,
    m: MemView,
    host: HostReply,
    a: Seq<u64>,
    d: CpuView,
    n: MemView,
    which: u64,
)
    requires
        given(v, c, m, a),
        a.len() == 4,
        !v.files.is_file(a[0]),
        m.can_read(a[1] as int, a[2] as int),
        given(v, d, n, seq![which]),
        gives(dispatch_out(v, Api::GetStdHandle, d, n, host), a[0]),
        dispatch_out(v, Api::WriteFile, c, m, host).r is Ok,
    ensures
        ({
            let o = dispatch_out(v, Api::WriteFile, c, m, host);
            let bytes = m.read(a[1], a[2] as nat)->Ok_0;
            &&& gives(o, 1)
            &&& which as u32 == 0xFFFF_FFF5 ==> o.os.stdout == v.stdout + bytes && o.os.stderr
                == v.stderr
            &&& which as u32 == 0xFFFF_FFF4 ==> o.os.stderr == v.stderr + bytes && o.os.stdout
                == v.stdout
            &&& a[3] != 0 && m.can_read(a[3] as int, 4) ==> o.mem.r32(a[3]) == Ok::<u32, Fault>(
                a[2] as u32,
            )
        }),
{
    reveal(crate::console::std_handle_reply);
    reveal(crate::console::write_out);
    serves_write_file(v, c, m, host);
    serves_get_std_handle(v, d, n, host);
    lemma_read_4(v, c, m, a, 0, 1, 2, 3);
    assert(seq![which][0] == which);
    let w = which as u32;
    assert(w == 0xFFFF_FFF5u32 ==> w as i32 == -11i32) by (bit_vector);
    assert(w == 0xFFFF_FFF4u32 ==> w as i32 == -12i32) by (bit_vector);
    if a[3] != 0 && m.can_read(a[3] as int, 4) {
        lemma_told(m, a[3], a[2] as u32);
    }
}

/// `puts` writes a string and a line feed, `fputs` the string alone, `fputc` one byte, and
/// `fwrite` as many items of a size as it is asked to.
pub proof fn lemma_writes_text(
    v: OsView,
    c: CpuView,
    m: MemView,
    host: HostReply,
    a: Seq<u64>,
    d: Seq<u8>,
)
    requires
        given(v, c, m, a),
        a.len() == 3,
    ensures
        bytes_from(m, a[0], 0x10_0000, 0) == Ok::<Seq<u8>, Fault>(d) ==> dispatch_out(
            v,
            Api::Puts,
            c,
            m,
            host,
        ).os.stdout == v.stdout + d + seq![10u8],
        bytes_from(m, a[0], 0x10_0000, 0) == Ok::<Seq<u8>, Fault>(d) ==> dispatch_out(
            v,
            Api::Fputs,
            c,
            m,
            host,
        ).os.stdout == v.stdout + d,
        dispatch_out(v, Api::Fputc, c, m, host).os.stdout == v.stdout.push((a[0] % 256) as u8),
        m.read(a[0], (a[1] * a[2]) as nat) == Ok::<Seq<u8>, Fault>(d) ==> dispatch_out(
            v,
            Api::Fwrite,
            c,
            m,
            host,
        ).os.stdout == v.stdout + d && gives(dispatch_out(v, Api::Fwrite, c, m, host), a[2]),
{
    reveal(crate::console::fputc_out);
    reveal(crate::console::fwrite_out);
    reveal(crate::console::puts_out);
    serves_puts(v, c, m, host);
    serves_fputs(v, c, m, host);
    serves_fputc(v, c, m, host);
    serves_fwrite(v, c, m, host);
    lemma_read_3(v, c, m, a, 0, 1, 2);
    assert(arg_at(v.wide(), c, m, 0) == Ok::<u64, Fault>(a[0]));
    let x = a[0];
    assert(x as u8 == (x % 256) as u8) by (bit_vector);
    assert(v.stdout + seq![(x % 256) as u8] =~= v.stdout.push((x % 256) as u8));
    assert(v.stdout + d.push(10u8) =~= v.stdout + d + seq![10u8]);
}

// ---- callbacks --------------------------------------------------------------

/// A guest function that is called finds its arguments where a service finds those of a
/// guest: the first four in 64-bit code.
pub proof fn lemma_callback_arguments(
    v: OsView,
    c: CpuView,
    m: MemView,
    func: u64,
    args: Seq<u64>,
    ret: u64,
    base: u64,
    i: int,
)
    requires
        v.wide(),
        c.gpr.len() == 16,
        framed(true, c, m, func, args, ret, base).fault is None,
        0 <= i < args.len(),
        i < 4,
    ensures
        ({
            let f = framed(true, c, m, func, args, ret, base);
            &&& arg_at(v.wide(), f.cpu, f.mem, i as u64) == Ok::<u64, Fault>(args[i])
            &&& f.cpu.rip == func
            &&& m.can_read(f.cpu.rsp() as int, 8) ==> f.mem.r64(f.cpu.rsp()) == Ok::<u64, Fault>(ret)
        }),
{
    lemma_call_frame(c, m, func, args, ret, base);
    let sp = ga(align16(base), -0x28);
    if m.can_read(sp as int, 8) {
        let t = seq![s64(sp, ret)];
        lemma_pow256();
        reveal_with_fuel(MemView::store_all, 2);
        assert(t.drop_last() =~= seq![]);
        assert(t.last() == s64(sp, ret));
        lemma_store_all_get(m, t, 0);
    }
}

// ---- environment --------------------------------------------------------------

/// Whether units stand somewhere in others.
pub open spec fn stands_in(s: Seq<u16>, u: Seq<u16>, at: int) -> bool {
    0 <= at && at + u.len() <= s.len() && s.subrange(at, at + u.len()) == u
}

/// Where a variable stands in the block of an environment.
pub open spec fn variable_at(e: Seq<VarView>, i: int) -> int {
    env_units_upto(e.take(i)).len() as int
}

/// The block of an environment holds each variable as its name, an equals sign, its value and
/// a terminator, one behind the other in their order, and ends with one more terminator.
pub proof fn lemma_environment_block(e: Seq<VarView>, i: int)
    requires
        0 <= i < e.len(),
    ensures
        ({
            let x = utf16(e[i].name) + seq![0x3du16] + utf16(e[i].value) + seq![0u16];
            &&& stands_in(env_units(e), x, variable_at(e, i))
            &&& variable_at(e, 0) == 0
            &&& variable_at(e, i + 1) == variable_at(e, i) + x.len()
            &&& env_units(e).len() == variable_at(e, e.len() as int) + 1
            &&& env_units(e).last() == 0
        }),
    decreases e.len(),
{
    let d = e.drop_last();
    let x = utf16(e[i].name) + seq![0x3du16] + utf16(e[i].value) + seq![0u16];
    let at = variable_at(e, i);
    assert(e.take(e.len() as int) =~= e);
    assert(e.take(0) =~= Seq::empty());
    assert(e.take(i + 1).drop_last() =~= e.take(i));
    assert(e.take(i + 1).last() == e[i]);
    if i == e.len() - 1 {
        assert(e.take(i) =~= d);
        assert(env_units(e).subrange(at, at + x.len()) =~= x);
    } else {
        lemma_environment_block(d, i);
        assert(d.take(i) =~= e.take(i));
        assert(d.take(i + 1) =~= e.take(i + 1));
        let b = env_units(d);
        assert(d.take(d.len() as int) =~= d);
        lemma_block_grows(d, i + 1);
        assert(at + x.len() <= b.len() - 1);
        assert(env_units(e).subrange(at, at + x.len()) =~= b.subrange(at, at + x.len()));
    }
}

proof fn lemma_block_grows(e: Seq<VarView>, i: int)
    requires
        0 <= i <= e.len(),
    ensures
        env_units_upto(e.take(i)).len() <= env_units_upto(e).len(),
    decreases e.len(),
{
    if i == e.len() {
        assert(e.take(i) =~= e);
    } else {
        lemma_block_grows(e.drop_last(), i);
        assert(e.drop_last().take(i) =~= e.take(i));
    }
}

} // verus!
