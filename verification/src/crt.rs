//! The calls of the C runtime and of the shell library that work on memory and
//! strings alone.

use vstd::prelude::*;

use crate::call::{answer, answer_after, arg, arg_at, args, args_at, faulted, Reply};
use crate::cpu::{CpuState, CpuView};
use crate::gstr::{
    bytes_from, lemma_wrapped_double, read_cstr, wide_len_from, wide_order, wide_order_from, wstrlen,
};
use crate::mem::{
    at, below, ga, s16, s8, store16, store8, Fault, MemView, Stored, VirtualMemory, MAX_REGION,
};
use crate::os::{OsReply, OsView, WinOs};

verus! {

/// The longest byte string that is measured.
pub const BYTE_LIMIT: u64 = 0x10_0000;

// ---- copying ----------------------------------------------------------------

/// Memory after `n` bytes were copied one by one, the first ones first.
pub open spec fn bytes_copied(m: MemView, dst: u64, src: u64, n: nat) -> Stored
    decreases n,
{
    if n == 0 {
        Stored { mem: m, fault: None }
    } else {
        let s = bytes_copied(m, dst, src, (n - 1) as nat);
        if s.fault is Some {
            s
        } else {
            match s.mem.r8(ga(src, n - 1)) {
                Err(f) => Stored { mem: s.mem, fault: Some(f) },
                Ok(b) => s.mem.store(s8(ga(dst, n - 1), b)),
            }
        }
    }
}

/// A copy that a fault ended goes no further.
proof fn lemma_bytes_stop(m: MemView, dst: u64, src: u64, k: nat, n: nat)
    requires
        k <= n,
        bytes_copied(m, dst, src, k).fault is Some,
    ensures
        bytes_copied(m, dst, src, n) == bytes_copied(m, dst, src, k),
    decreases n - k,
{
    if k < n {
        lemma_bytes_stop(m, dst, src, k, (n - 1) as nat);
    }
}

/// Copy bytes one by one.
pub fn copy_bytes(mem: &mut VirtualMemory, dst: u64, src: u64, n: u64) -> (r: Result<(), Fault>)
    ensures
        final(mem)@ == bytes_copied(old(mem)@, dst, src, n as nat).mem,
        r == crate::mem::fault_result(bytes_copied(old(mem)@, dst, src, n as nat).fault),
{
    let ghost m = mem@;
    let mut i: u64 = 0;
    while i < n
        invariant
            i <= n,
            m == old(mem)@,
            bytes_copied(m, dst, src, i as nat) == (Stored { mem: mem@, fault: None }),
        decreases n - i,
    {
        match mem.read_u8(at(src, i)) {
            Err(f) => {
                proof {
                    lemma_bytes_stop(m, dst, src, (i + 1) as nat, n as nat);
                }
                return Err(f);
            },
            Ok(b) => match mem.store(store8(at(dst, i), b)) {
                Err(f) => {
                    proof {
                        lemma_bytes_stop(m, dst, src, (i + 1) as nat, n as nat);
                    }
                    return Err(f);
                },
                Ok(_) => {},
            },
        }
        i = i + 1;
    }
    Ok(())
}

/// Memory after `n` code units were copied one by one, the first ones first.
pub open spec fn units_copied(m: MemView, dst: u64, src: u64, n: nat) -> Stored
    decreases n,
{
    if n == 0 {
        Stored { mem: m, fault: None }
    } else {
        let s = units_copied(m, dst, src, (n - 1) as nat);
        if s.fault is Some {
            s
        } else {
            match s.mem.r16(ga(src, 2 * (n - 1))) {
                Err(f) => Stored { mem: s.mem, fault: Some(f) },
                Ok(u) => s.mem.store(s16(ga(dst, 2 * (n - 1)), u)),
            }
        }
    }
}

/// A copy that a fault ended goes no further.
proof fn lemma_units_stop(m: MemView, dst: u64, src: u64, k: nat, n: nat)
    requires
        k <= n,
        units_copied(m, dst, src, k).fault is Some,
    ensures
        units_copied(m, dst, src, n) == units_copied(m, dst, src, k),
    decreases n - k,
{
    if k < n {
        lemma_units_stop(m, dst, src, k, (n - 1) as nat);
    }
}

/// Copy code units one by one.
fn copy_units(mem: &mut VirtualMemory, dst: u64, src: u64, n: u64) -> (r: Result<(), Fault>)
    requires
        n <= 0x1000_0000,
    ensures
        final(mem)@ == units_copied(old(mem)@, dst, src, n as nat).mem,
        r == crate::mem::fault_result(units_copied(old(mem)@, dst, src, n as nat).fault),
{
    let ghost m = mem@;
    let mut i: u64 = 0;
    while i < n
        invariant
            i <= n <= 0x1000_0000,
            m == old(mem)@,
            units_copied(m, dst, src, i as nat) == (Stored { mem: mem@, fault: None }),
        decreases n - i,
    {
        match mem.read_u16(at(src, 2 * i)) {
            Err(f) => {
                proof {
                    lemma_units_stop(m, dst, src, (i + 1) as nat, n as nat);
                }
                return Err(f);
            },
            Ok(u) => match mem.store(store16(at(dst, 2 * i), u)) {
                Err(f) => {
                    proof {
                        lemma_units_stop(m, dst, src, (i + 1) as nat, n as nat);
                    }
                    return Err(f);
                },
                Ok(_) => {},
            },
        }
        i = i + 1;
    }
    Ok(())
}

// ---- blocks -----------------------------------------------------------------

/// `memcpy` and `memmove`: all is read before anything is written.
#[verifier::opaque]
pub open spec fn move_reply(is_64bit: bool, c: CpuView, m: MemView) -> Reply {
    match args_at(is_64bit, c, m, seq![0, 1, 2]) {
        Err(f) => faulted(m, f),
        Ok(a) => match m.read(a[1], a[2] as nat) {
            Err(f) => faulted(m, f),
            Ok(d) => answer_after(m.write(a[0], d), a[0]),
        },
    }
}

/// Serve `memcpy` and `memmove`.
pub fn move_memory(is_64bit: bool, cpu: &CpuState, mem: &mut VirtualMemory) -> (r: Result<u64, Fault>)
    ensures
        final(mem)@ == move_reply(is_64bit, cpu@, old(mem)@).mem,
        r == move_reply(is_64bit, cpu@, old(mem)@).r,
{
    proof {
        reveal(move_reply);
    }
    let list: Vec<u64> = vec![0, 1, 2];
    assert(list@ =~= seq![0u64, 1, 2]);
    let a = match args(is_64bit, cpu, mem, &list) {
        Ok(a) => a,
        Err(f) => {
            return Err(f);
        },
    };
    let d = match mem.read_block(a[1], a[2]) {
        Ok(d) => d,
        Err(f) => {
            return Err(f);
        },
    };
    match mem.write(a[0], &d) {
        Ok(_) => Ok(a[0]),
        Err(f) => Err(f),
    }
}

/// `n` times the same byte.
pub open spec fn repeated(b: u8, n: nat) -> Seq<u8> {
    Seq::new(n, |i: int| b)
}

/// `memset`.
#[verifier::opaque]
pub open spec fn fill_reply(is_64bit: bool, c: CpuView, m: MemView) -> Reply {
    match args_at(is_64bit, c, m, seq![0, 1, 2]) {
        Err(f) => faulted(m, f),
        Ok(a) => answer_after(m.write(a[0], repeated(a[1] as u8, a[2] as nat)), a[0]),
    }
}

/// Serve `memset`.
pub fn fill_memory(is_64bit: bool, cpu: &CpuState, mem: &mut VirtualMemory) -> (r: Result<u64, Fault>)
    ensures
        final(mem)@ == fill_reply(is_64bit, cpu@, old(mem)@).mem,
        r == fill_reply(is_64bit, cpu@, old(mem)@).r,
{
    proof {
        reveal(fill_reply);
    }
    let list: Vec<u64> = vec![0, 1, 2];
    assert(list@ =~= seq![0u64, 1, 2]);
    let a = match args(is_64bit, cpu, mem, &list) {
        Ok(a) => a,
        Err(f) => {
            return Err(f);
        },
    };
    let n: u64 = a[2];
    if n > MAX_REGION {
        mem.ascends();
        proof {
            crate::mem::lemma_find_region(mem@.regions, a@[0] as int);
        }
        return Err(Fault { addr: a[0] });
    }
    let b: u8 = a[1] as u8;
    let mut d: Vec<u8> = Vec::new();
    let mut i: u64 = 0;
    while i < n
        invariant
            i <= n,
            d@ == repeated(b, i as nat),
        decreases n - i,
    {
        d.push(b);
        i = i + 1;
        assert(d@ =~= repeated(b, i as nat));
    }
    assert(d@ =~= repeated(b, n as nat));
    match mem.write(a[0], &d) {
        Ok(_) => Ok(a[0]),
        Err(f) => Err(f),
    }
}

/// The order of two blocks from byte `i` on: the difference of the first two bytes
/// that differ, or 0.
pub open spec fn block_order_from(m: MemView, a: u64, b: u64, n: u64, i: int) -> Result<u64, Fault>
    decreases n - i,
{
    if i >= n {
        Ok(0)
    } else {
        match (m.r8(ga(a, i)), m.r8(ga(b, i))) {
            (Err(f), _) => Err(f),
            (Ok(_), Err(f)) => Err(f),
            (Ok(x), Ok(y)) => if x != y {
                Ok(ga(0, x - y))
            } else {
                block_order_from(m, a, b, n, i + 1)
            },
        }
    }
}

/// The order of two blocks of memory.
pub open spec fn block_order_reply(is_64bit: bool, c: CpuView, m: MemView) -> Reply {
    match args_at(is_64bit, c, m, seq![0, 1, 2]) {
        Err(f) => faulted(m, f),
        Ok(a) => Reply { mem: m, r: block_order_from(m, a[0], a[1], a[2], 0) },
    }
}

/// Serve the call that orders two blocks of memory.
pub fn order_blocks(is_64bit: bool, cpu: &CpuState, mem: &VirtualMemory) -> (r: Result<u64, Fault>)
    ensures
        r == block_order_reply(is_64bit, cpu@, mem@).r,
        block_order_reply(is_64bit, cpu@, mem@).mem == mem@,
{
    let list: Vec<u64> = vec![0, 1, 2];
    assert(list@ =~= seq![0u64, 1, 2]);
    let a = match args(is_64bit, cpu, mem, &list) {
        Ok(a) => a,
        Err(f) => {
            return Err(f);
        },
    };
    let n: u64 = a[2];
    let mut i: u64 = 0;
    while i < n
        invariant
            i <= n,
            n == a@[2],
            a.len() == 3,
            block_order_from(mem@, a@[0], a@[1], n, 0) == block_order_from(
                mem@,
                a@[0],
                a@[1],
                n,
                i as int,
            ),
            args_at(is_64bit, cpu@, mem@, seq![0u64, 1, 2]) == Ok::<Seq<u64>, Fault>(a@),
        decreases n - i,
    {
        let x: u8 = match mem.read_u8(at(a[0], i)) {
            Ok(x) => x,
            Err(f) => {
                return Err(f);
            },
        };
        let y: u8 = match mem.read_u8(at(a[1], i)) {
            Ok(y) => y,
            Err(f) => {
                return Err(f);
            },
        };
        if x != y {
            return Ok(
                if x > y {
                    (x - y) as u64
                } else {
                    below(0, (y - x) as u64)
                },
            );
        }
        i = i + 1;
    }
    Ok(0)
}

/// The length of a byte string, where a null pointer has none.
#[verifier::opaque]
pub open spec fn byte_len_reply(is_64bit: bool, c: CpuView, m: MemView, null: bool) -> Reply {
    match arg_at(is_64bit, c, m, 0) {
        Err(f) => faulted(m, f),
        Ok(p) => if null && p == 0 {
            answer(m, 0)
        } else {
            match bytes_from(m, p, BYTE_LIMIT, 0) {
                Err(f) => faulted(m, f),
                Ok(d) => answer(m, d.len() as u64),
            }
        },
    }
}

/// Serve `strlen`, and `lstrlenA` where `null`.
pub fn byte_length(is_64bit: bool, cpu: &CpuState, mem: &VirtualMemory, null: bool) -> (r: Result<
    u64,
    Fault,
>)
    ensures
        r == byte_len_reply(is_64bit, cpu@, mem@, null).r,
        byte_len_reply(is_64bit, cpu@, mem@, null).mem == mem@,
{
    proof {
        reveal(byte_len_reply);
    }
    let p: u64 = match arg(is_64bit, cpu, mem, 0) {
        Ok(p) => p,
        Err(f) => {
            return Err(f);
        },
    };
    if null && p == 0 {
        return Ok(0);
    }
    match read_cstr(mem, p, BYTE_LIMIT) {
        Ok(d) => Ok(d.len() as u64),
        Err(f) => Err(f),
    }
}

// ---- strings ----------------------------------------------------------------

/// `CharNext`: the next character, or the same place at the end.
#[verifier::opaque]
pub open spec fn next_reply(is_64bit: bool, c: CpuView, m: MemView, wide: bool) -> Reply {
    match arg_at(is_64bit, c, m, 0) {
        Err(f) => faulted(m, f),
        Ok(p) => if wide {
            match m.r16(p) {
                Err(f) => faulted(m, f),
                Ok(u) => answer(
                    m,
                    if u == 0 {
                        p
                    } else {
                        ga(p, 2)
                    },
                ),
            }
        } else {
            match m.r8(p) {
                Err(f) => faulted(m, f),
                Ok(b) => answer(
                    m,
                    if b == 0 {
                        p
                    } else {
                        ga(p, 1)
                    },
                ),
            }
        },
    }
}

/// Serve `CharNext`.
pub fn char_next(is_64bit: bool, cpu: &CpuState, mem: &VirtualMemory, wide: bool) -> (r: Result<
    u64,
    Fault,
>)
    ensures
        r == next_reply(is_64bit, cpu@, mem@, wide).r,
        next_reply(is_64bit, cpu@, mem@, wide).mem == mem@,
{
    proof {
        reveal(next_reply);
    }
    let p: u64 = match arg(is_64bit, cpu, mem, 0) {
        Ok(p) => p,
        Err(f) => {
            return Err(f);
        },
    };
    if wide {
        match mem.read_u16(p) {
            Err(f) => Err(f),
            Ok(u) => if u == 0 {
                Ok(p)
            } else {
                Ok(at(p, 2))
            },
        }
    } else {
        match mem.read_u8(p) {
            Err(f) => Err(f),
            Ok(b) => if b == 0 {
                Ok(p)
            } else {
                Ok(at(p, 1))
            },
        }
    }
}

/// `CharPrev`: the character before, or the start.
#[verifier::opaque]
pub open spec fn prev_reply(is_64bit: bool, c: CpuView, m: MemView) -> Reply {
    match args_at(is_64bit, c, m, seq![0, 1]) {
        Err(f) => faulted(m, f),
        Ok(a) => answer(
            m,
            if a[1] <= a[0] {
                a[0]
            } else {
                ga(a[1], -2)
            },
        ),
    }
}

/// Serve `CharPrev`.
pub fn char_prev(is_64bit: bool, cpu: &CpuState, mem: &VirtualMemory) -> (r: Result<u64, Fault>)
    ensures
        r == prev_reply(is_64bit, cpu@, mem@).r,
        prev_reply(is_64bit, cpu@, mem@).mem == mem@,
{
    proof {
        reveal(prev_reply);
    }
    let list: Vec<u64> = vec![0, 1];
    assert(list@ =~= seq![0u64, 1]);
    match args(is_64bit, cpu, mem, &list) {
        Err(f) => Err(f),
        Ok(a) => if a[1] <= a[0] {
            Ok(a[0])
        } else {
            Ok(below(a[1], 2))
        },
    }
}

/// `lstrlenW`.
#[verifier::opaque]
pub open spec fn wide_len_reply(is_64bit: bool, c: CpuView, m: MemView) -> Reply {
    match arg_at(is_64bit, c, m, 0) {
        Err(f) => faulted(m, f),
        Ok(p) => if p == 0 {
            answer(m, 0)
        } else {
            match wide_len_from(m, p, 0) {
                Err(f) => faulted(m, f),
                Ok(n) => answer(m, n as u64),
            }
        },
    }
}

/// Serve `lstrlenW`.
pub fn wide_length(is_64bit: bool, cpu: &CpuState, mem: &VirtualMemory) -> (r: Result<u64, Fault>)
    ensures
        r == wide_len_reply(is_64bit, cpu@, mem@).r,
        wide_len_reply(is_64bit, cpu@, mem@).mem == mem@,
{
    proof {
        reveal(wide_len_reply);
    }
    let p: u64 = match arg(is_64bit, cpu, mem, 0) {
        Ok(p) => p,
        Err(f) => {
            return Err(f);
        },
    };
    if p == 0 {
        return Ok(0);
    }
    wstrlen(mem, p)
}

/// `lstrcpyW`, and `lstrcatW` where `append`: the source and its NUL, at the
/// destination or behind what is there.
#[verifier::opaque]
pub open spec fn copy_reply(is_64bit: bool, c: CpuView, m: MemView, append: bool) -> Reply {
    match args_at(is_64bit, c, m, seq![0, 1]) {
        Err(f) => faulted(m, f),
        Ok(a) => {
            let have = if append {
                wide_len_from(m, a[0], 0)
            } else {
                Ok(0)
            };
            match have {
                Err(f) => faulted(m, f),
                Ok(d) => match wide_len_from(m, a[1], 0) {
                    Err(f) => faulted(m, f),
                    Ok(n) => answer_after(
                        units_copied(m, ga(a[0], 2 * d), a[1], (n + 1) as nat),
                        a[0],
                    ),
                },
            }
        },
    }
}

/// Serve `lstrcpyW`, and `lstrcatW` where `append`.
pub fn copy_string(is_64bit: bool, cpu: &CpuState, mem: &mut VirtualMemory, append: bool) -> (r: Result<
    u64,
    Fault,
>)
    ensures
        final(mem)@ == copy_reply(is_64bit, cpu@, old(mem)@, append).mem,
        r == copy_reply(is_64bit, cpu@, old(mem)@, append).r,
{
    proof {
        reveal(copy_reply);
    }
    let list: Vec<u64> = vec![0, 1];
    assert(list@ =~= seq![0u64, 1]);
    let a = match args(is_64bit, cpu, mem, &list) {
        Ok(a) => a,
        Err(f) => {
            return Err(f);
        },
    };
    let d: u64 = if append {
        match wstrlen(mem, a[0]) {
            Ok(n) => n,
            Err(f) => {
                return Err(f);
            },
        }
    } else {
        0
    };
    let n: u64 = match wstrlen(mem, a[1]) {
        Ok(n) => n,
        Err(f) => {
            return Err(f);
        },
    };
    match copy_units(mem, at(a[0], 2 * d), a[1], n + 1) {
        Ok(_) => Ok(a[0]),
        Err(f) => Err(f),
    }
}

/// A value with its sign kept in a wider one.
pub open spec fn widened(v: i32) -> u64 {
    ga(0, v as int)
}

/// The order of two strings of code units, the case of ASCII letters dropped where
/// `fold`.
#[verifier::opaque]
pub open spec fn order_reply(is_64bit: bool, c: CpuView, m: MemView, fold: bool) -> Reply {
    match args_at(is_64bit, c, m, seq![0, 1]) {
        Err(f) => faulted(m, f),
        Ok(a) => match wide_order_from(m, a[0], a[1], fold, 0) {
            Err(f) => faulted(m, f),
            Ok(v) => answer(m, widened(v)),
        },
    }
}

/// Serve the calls that order two strings of code units.
pub fn order_strings(is_64bit: bool, cpu: &CpuState, mem: &VirtualMemory, fold: bool) -> (r: Result<
    u64,
    Fault,
>)
    ensures
        r == order_reply(is_64bit, cpu@, mem@, fold).r,
        order_reply(is_64bit, cpu@, mem@, fold).mem == mem@,
{
    proof {
        reveal(order_reply);
    }
    let list: Vec<u64> = vec![0, 1];
    assert(list@ =~= seq![0u64, 1]);
    let a = match args(is_64bit, cpu, mem, &list) {
        Ok(a) => a,
        Err(f) => {
            return Err(f);
        },
    };
    match wide_order(mem, a[0], a[1], fold) {
        Err(f) => Err(f),
        Ok(v) => if v >= 0 {
            Ok(v as u64)
        } else {
            Ok(below(0, (-(v as i64)) as u64))
        },
    }
}

/// A bounded copy, and where it stopped.
pub struct Bounded {
    pub mem: MemView,
    pub fault: Option<Fault>,
    pub at: int,
}

/// Units copied from place `i` on, up to the NUL or to the last place but one of
/// `count`.
pub open spec fn bounded_from(m: MemView, dst: u64, src: u64, count: u64, i: int) -> Bounded
    decreases count - i,
{
    if i + 1 >= count {
        Bounded { mem: m, fault: None, at: i }
    } else {
        match m.r16(ga(src, 2 * i)) {
            Err(f) => Bounded { mem: m, fault: Some(f), at: i },
            Ok(u) => {
                let s = m.store(s16(ga(dst, 2 * i), u));
                if s.fault is Some {
                    Bounded { mem: s.mem, fault: s.fault, at: i }
                } else if u == 0 {
                    Bounded { mem: s.mem, fault: None, at: i }
                } else {
                    bounded_from(s.mem, dst, src, count, i + 1)
                }
            },
        }
    }
}

/// `lstrcpynW`: at most `count` units with the NUL, which is always there.
pub open spec fn bounded_reply(is_64bit: bool, c: CpuView, m: MemView) -> Reply {
    match args_at(is_64bit, c, m, seq![0, 1, 2]) {
        Err(f) => faulted(m, f),
        Ok(a) => if a[2] == 0 {
            answer(m, a[0])
        } else {
            let b = bounded_from(m, a[0], a[1], a[2], 0);
            match b.fault {
                Some(f) => Reply { mem: b.mem, r: Err(f) },
                None => {
                    let last = ga(a[0], 2 * b.at);
                    match b.mem.r16(last) {
                        Ok(u) => if u == 0 {
                            answer(b.mem, a[0])
                        } else {
                            answer_after(b.mem.store(s16(last, 0)), a[0])
                        },
                        Err(_) => answer_after(b.mem.store(s16(last, 0)), a[0]),
                    }
                },
            }
        },
    }
}

/// Serve `lstrcpynW`.
pub fn copy_bounded(is_64bit: bool, cpu: &CpuState, mem: &mut VirtualMemory) -> (r: Result<u64, Fault>)
    ensures
        final(mem)@ == bounded_reply(is_64bit, cpu@, old(mem)@).mem,
        r == bounded_reply(is_64bit, cpu@, old(mem)@).r,
{
    let list: Vec<u64> = vec![0, 1, 2];
    assert(list@ =~= seq![0u64, 1, 2]);
    let a = match args(is_64bit, cpu, mem, &list) {
        Ok(a) => a,
        Err(f) => {
            return Err(f);
        },
    };
    let dst: u64 = a[0];
    let src: u64 = a[1];
    let count: u64 = a[2];
    if count == 0 {
        return Ok(dst);
    }
    let ghost all = bounded_from(mem@, dst, src, count, 0);
    let ghost m0 = mem@;
    let mut i: u64 = 0;
    let mut more: bool = true;
    while more && i < count - 1
        invariant
            i < count,
            dst == a@[0],
            src == a@[1],
            count == a@[2],
            m0 == old(mem)@,
            args_at(is_64bit, cpu@, m0, seq![0u64, 1, 2]) == Ok::<Seq<u64>, Fault>(a@),
            all == bounded_from(m0, dst, src, count, 0),
            more ==> all == bounded_from(mem@, dst, src, count, i as int),
            !more ==> all == (Bounded { mem: mem@, fault: None, at: i as int }),
        decreases count - i,
            (if more {
                1int
            } else {
                0int
            }),
    {
        let u: u16 = match mem.read_u16(at(src, i.wrapping_mul(2))) {
            Ok(u) => u,
            Err(f) => {
                proof {
                    lemma_wrapped_double(src, i);
                }
                return Err(f);
            },
        };
        proof {
            lemma_wrapped_double(src, i);
            lemma_wrapped_double(dst, i);
        }
        match mem.store(store16(at(dst, i.wrapping_mul(2)), u)) {
            Ok(_) => {},
            Err(f) => {
                return Err(f);
            },
        }
        if u == 0 {
            more = false;
        } else {
            i = i + 1;
        }
    }
    proof {
        lemma_wrapped_double(dst, i);
    }
    let last: u64 = at(dst, i.wrapping_mul(2));
    let ended: bool = match mem.read_u16(last) {
        Ok(u) => u == 0,
        Err(_) => false,
    };
    if ended {
        return Ok(dst);
    }
    match mem.store(store16(last, 0)) {
        Ok(_) => Ok(dst),
        Err(f) => Err(f),
    }
}

// ---- the heap ---------------------------------------------------------------

/// A call that asks for as many bytes of the heap as argument `i` says.
#[verifier::opaque]
pub open spec fn block_out(v: OsView, c: CpuView, m: MemView, i: u64) -> OsReply {
    match arg_at(v.wide(), c, m, i) {
        Err(f) => OsReply { os: v, mem: m, r: Err(f) },
        Ok(n) => OsReply { os: v.heap_asked(n), mem: m, r: Ok(v.fresh_block(n)) },
    }
}

/// A product that stays at the largest value where it does not fit.
pub open spec fn saturated(a: u64, b: u64) -> u64 {
    if a * b > u64::MAX {
        u64::MAX
    } else {
        (a * b) as u64
    }
}

/// `calloc`: fresh bytes of the heap are zero.
#[verifier::opaque]
pub open spec fn array_out(v: OsView, c: CpuView, m: MemView) -> OsReply {
    match args_at(v.wide(), c, m, seq![0, 1]) {
        Err(f) => OsReply { os: v, mem: m, r: Err(f) },
        Ok(a) => {
            let n = saturated(a[0], a[1]);
            OsReply { os: v.heap_asked(n), mem: m, r: Ok(v.fresh_block(n)) }
        },
    }
}

/// How much of an old block goes into a new one of `size` bytes: no more than it
/// holds, where that is known.
pub open spec fn carried(v: OsView, p: u64, size: u64) -> u64 {
    if v.heap.sizes.contains_key(p) && v.heap.sizes[p] < size {
        v.heap.sizes[p]
    } else {
        size
    }
}

/// A call that gives the block in argument `i` the size in argument `j`: a fresh
/// block that starts with the content of the old one.
#[verifier::opaque]
pub open spec fn resize_out(v: OsView, c: CpuView, m: MemView, i: u64, j: u64) -> OsReply {
    match args_at(v.wide(), c, m, seq![i, j]) {
        Err(f) => OsReply { os: v, mem: m, r: Err(f) },
        Ok(a) => {
            let p = v.fresh_block(a[1]);
            let w = v.heap_asked(a[1]);
            if p == 0 || a[0] == 0 {
                OsReply { os: w, mem: m, r: Ok(p) }
            } else {
                let o = answer_after(bytes_copied(m, p, a[0], carried(v, a[0], a[1]) as nat), p);
                OsReply { os: w, mem: o.mem, r: o.r }
            }
        },
    }
}

impl WinOs {
    /// Serve the calls that ask for a block of the heap.
    pub fn give_block(&mut self, cpu: &CpuState, mem: &VirtualMemory, i: u64) -> (r: Result<u64, Fault>)
        requires
            old(self).wf(),
            i < 64,
        ensures
            final(self).wf(),
            final(self).thunks == old(self).thunks,
            (OsReply { os: final(self)@, mem: mem@, r }) == block_out(
                old(self)@,
                cpu@,
                mem@,
                i,
            ),
    {
        proof {
            reveal(block_out);
        }
        match arg(self.cfg.is_64bit, cpu, mem, i) {
            Ok(n) => Ok(self.heap_alloc(n)),
            Err(f) => Err(f),
        }
    }

    /// Serve `calloc`.
    pub fn give_array(&mut self, cpu: &CpuState, mem: &VirtualMemory) -> (r: Result<u64, Fault>)
        requires
            old(self).wf(),
        ensures
            final(self).wf(),
            final(self).thunks == old(self).thunks,
            (OsReply { os: final(self)@, mem: mem@, r }) == array_out(
                old(self)@,
                cpu@,
                mem@,
            ),
    {
        proof {
            reveal(array_out);
        }
        let list: Vec<u64> = vec![0, 1];
        assert(list@ =~= seq![0u64, 1]);
        let a = match args(self.cfg.is_64bit, cpu, mem, &list) {
            Ok(a) => a,
            Err(f) => {
                return Err(f);
            },
        };
        let n: u64 = match a[0].checked_mul(a[1]) {
            Some(n) => n,
            None => u64::MAX,
        };
        Ok(self.heap_alloc(n))
    }

    /// Serve `HeapReAlloc` and `realloc`.
    pub fn resize_block(&mut self, cpu: &CpuState, mem: &mut VirtualMemory, i: u64, j: u64) -> (r:
        Result<u64, Fault>)
        requires
            old(self).wf(),
            i < 64,
            j < 64,
        ensures
            final(self).wf(),
            final(self).thunks == old(self).thunks,
            (OsReply { os: final(self)@, mem: final(mem)@, r }) == resize_out(
                old(self)@,
                cpu@,
                old(mem)@,
                i,
                j,
            ),
    {
        proof {
            reveal(resize_out);
        }
        let list: Vec<u64> = vec![i, j];
        assert(list@ =~= seq![i, j]);
        let a = match args(self.cfg.is_64bit, cpu, mem, &list) {
            Ok(a) => a,
            Err(f) => {
                return Err(f);
            },
        };
        let size: u64 = a[1];
        let n: u64 = match self.heap.block_size(a[0]) {
            Some(k) => if k < size {
                k
            } else {
                size
            },
            None => size,
        };
        let p: u64 = self.heap_alloc(size);
        if p != 0 && a[0] != 0 {
            match copy_bytes(mem, p, a[0], n) {
                Ok(_) => {},
                Err(f) => {
                    return Err(f);
                },
            }
        }
        Ok(p)
    }
}

} // verus!
