//! Strings in guest memory.

use vstd::prelude::*;

use vstd::string::StrSliceExecFns;
use vstd::utf8::encode_utf8;

use crate::call::{answer, answer_stores, Reply};
use crate::mem::{at, ga, s16, s8, store16, store8, Fault, MemView, Store, VirtualMemory};
use crate::text::{
    decode_utf16_lossy, decode_utf8_lossy, encode_utf16, utf16, utf16_lossy, utf8_lossy,
};

verus! {

/// No string is read further than this many units past its first.
pub const WIDE_LIMIT: u64 = 0x1_0000;

/// No length is counted further than this.
pub const LEN_LIMIT: u64 = 0x10_0000;

/// How many code units an address space holds.
pub const ALL_UNITS: u64 = 0x8000_0000_0000_0000;

/// The code units of the string at `a` from the `i`-th on, up to its NUL or to
/// the limit.
pub open spec fn units_from(m: MemView, a: u64, i: int) -> Result<Seq<u16>, Fault>
    decreases WIDE_LIMIT + 1 - i,
{
    match m.r16(ga(a, 2 * i)) {
        Err(f) => Err(f),
        Ok(w) => if w == 0 || i > WIDE_LIMIT {
            Ok(Seq::empty())
        } else {
            match units_from(m, a, i + 1) {
                Err(f) => Err(f),
                Ok(rest) => Ok(seq![w] + rest),
            }
        },
    }
}

/// The code units of the string at `a`; a null pointer is an empty string.
pub open spec fn units_at(m: MemView, a: u64) -> Result<Seq<u16>, Fault> {
    if a == 0 {
        Ok(Seq::empty())
    } else {
        units_from(m, a, 0)
    }
}

/// Read a NUL-terminated string of code units, without its NUL.
pub fn read_wstr_units(mem: &VirtualMemory, a: u64) -> (r: Result<Vec<u16>, Fault>)
    ensures
        match r {
            Ok(v) => units_at(mem@, a) == Ok::<Seq<u16>, Fault>(v@) && v.len() <= WIDE_LIMIT + 1,
            Err(f) => units_at(mem@, a) == Err::<Seq<u16>, Fault>(f),
        },
{
    let mut out: Vec<u16> = Vec::new();
    if a == 0 {
        assert(out@ =~= Seq::<u16>::empty());
        return Ok(out);
    }
    let mut i: u64 = 0;
    let ghost all = units_from(mem@, a, 0);
    while i <= WIDE_LIMIT
        invariant
            i <= WIDE_LIMIT + 1,
            a != 0,
            out.len() == i,
            all == units_from(mem@, a, 0),
            all == (match units_from(mem@, a, i as int) {
                Err(f) => Err::<Seq<u16>, Fault>(f),
                Ok(rest) => Ok::<Seq<u16>, Fault>(out@ + rest),
            }),
        decreases WIDE_LIMIT + 1 - i,
    {
        match mem.read_u16(at(a, 2 * i)) {
            Err(f) => {
                return Err(f);
            },
            Ok(w) => {
                if w == 0 {
                    assert(out@ + Seq::<u16>::empty() =~= out@);
                    return Ok(out);
                }
                let ghost before = out@;
                out.push(w);
                proof {
                    match units_from(mem@, a, i + 1) {
                        Ok(rest) => {
                            assert(before + (seq![w] + rest) =~= out@ + rest);
                        },
                        Err(_) => {},
                    }
                }
            },
        }
        i = i + 1;
    }
    match mem.read_u16(at(a, 2 * i)) {
        Err(f) => Err(f),
        Ok(_) => {
            assert(out@ + Seq::<u16>::empty() =~= out@);
            Ok(out)
        },
    }
}

/// The string at `a`, decoded.
pub open spec fn wide_text(m: MemView, a: u64) -> Result<Seq<char>, Fault> {
    match units_at(m, a) {
        Err(f) => Err(f),
        Ok(u) => Ok(utf16_lossy(u)),
    }
}

/// Read a NUL-terminated string of code units and decode it.
pub fn read_wstr(mem: &VirtualMemory, a: u64) -> (r: Result<String, Fault>)
    ensures
        match r {
            Ok(s) => wide_text(mem@, a) == Ok::<Seq<char>, Fault>(s@),
            Err(f) => wide_text(mem@, a) == Err::<Seq<char>, Fault>(f),
        },
{
    match read_wstr_units(mem, a) {
        Ok(u) => Ok(decode_utf16_lossy(&u)),
        Err(f) => Err(f),
    }
}

/// The stores that lay `units` down at `a`, with a NUL behind them.
pub open spec fn wide_table(a: u64, units: Seq<u16>) -> Seq<Store> {
    Seq::new(
        units.len() + 1,
        |i: int|
            s16(
                ga(a, 2 * i),
                if i < units.len() {
                    units[i]
                } else {
                    0
                },
            ),
    )
}

/// How many of `len` units fit a buffer of `max` that also takes a NUL.
pub open spec fn fitting(len: nat, max: u64) -> nat {
    if len < max {
        len
    } else {
        (max - 1) as nat
    }
}

/// Writing `units` to a buffer of `max` units: how many went in, without the NUL.
pub open spec fn wide_write(m: MemView, a: u64, units: Seq<u16>, max: u64) -> Reply {
    if a == 0 || max == 0 {
        answer(m, 0)
    } else {
        let n = fitting(units.len(), max);
        answer_stores(m, wide_table(a, units.take(n as int)), n as u64)
    }
}

/// The stores that lay `units` down at `a`, with a NUL behind them.
pub fn wide_stores(a: u64, units: &Vec<u16>, n: usize) -> (t: Vec<Store>)
    requires
        n <= units.len(),
    ensures
        t@ == wide_table(a, units@.take(n as int)),
{
    let mut t: Vec<Store> = Vec::new();
    let mut i: usize = 0;
    while i < n
        invariant
            i <= n <= units.len(),
            t.len() == i,
            forall|j: int| 0 <= j < i ==> #[trigger] t@[j] == s16(ga(a, 2 * j), units@[j]),
        decreases n - i,
    {
        t.push(store16(at(a, (i as u64).wrapping_mul(2)), units[i]));
        proof {
            lemma_wrapped_double(a, i as u64);
        }
        i = i + 1;
    }
    t.push(store16(at(a, (n as u64).wrapping_mul(2)), 0));
    proof {
        lemma_wrapped_double(a, n as u64);
        assert(t@ =~= wide_table(a, units@.take(n as int)));
    }
    t
}

/// Doubling an index before or after reduction leads to one address.
pub proof fn lemma_wrapped_double(a: u64, i: u64)
    ensures
        ga(a, ((2 * i) % 0x1_0000_0000_0000_0000) as int) == ga(a, 2 * i),
{
    if 2 * i >= 0x1_0000_0000_0000_0000 {
        assert((2 * i) % 0x1_0000_0000_0000_0000 == 2 * i - 0x1_0000_0000_0000_0000);
    }
}

/// Write code units and a NUL into a buffer of `max` units; the answer is the
/// number of units written, without the NUL.
pub fn write_wstr_units(mem: &mut VirtualMemory, a: u64, units: &Vec<u16>, max: u64) -> (r: Result<
    u64,
    Fault,
>)
    ensures
        final(mem)@ == wide_write(old(mem)@, a, units@, max).mem,
        r == wide_write(old(mem)@, a, units@, max).r,
{
    if a == 0 || max == 0 {
        return Ok(0);
    }
    let len: u64 = units.len() as u64;
    let n: u64 = if len < max {
        len
    } else {
        max - 1
    };
    let t = wide_stores(a, units, n as usize);
    match mem.store_all(&t) {
        Ok(_) => Ok(n),
        Err(f) => Err(f),
    }
}

/// Write a string as code units and a NUL into a buffer of `max` units.
pub fn write_wstr(mem: &mut VirtualMemory, a: u64, s: &str, max: u64) -> (r: Result<u64, Fault>)
    ensures
        final(mem)@ == wide_write(old(mem)@, a, utf16(s@), max).mem,
        r == wide_write(old(mem)@, a, utf16(s@), max).r,
{
    let u = encode_utf16(s);
    write_wstr_units(mem, a, &u, max)
}

/// The length of the string at `a`, counted from `i` on and no further than
/// the limit.
pub open spec fn wide_len_from(m: MemView, a: u64, i: int) -> Result<int, Fault>
    decreases LEN_LIMIT + 1 - i,
{
    match m.r16(ga(a, 2 * i)) {
        Err(f) => Err(f),
        Ok(w) => if w == 0 {
            Ok(i)
        } else if i + 1 > LEN_LIMIT {
            Ok(i + 1)
        } else {
            wide_len_from(m, a, i + 1)
        },
    }
}

/// The length in code units of the NUL-terminated string at `a`.
pub fn wstrlen(mem: &VirtualMemory, a: u64) -> (r: Result<u64, Fault>)
    ensures
        match r {
            Ok(n) => wide_len_from(mem@, a, 0) == Ok::<int, Fault>(n as int) && n <= LEN_LIMIT + 1,
            Err(f) => wide_len_from(mem@, a, 0) == Err::<int, Fault>(f),
        },
{
    let mut n: u64 = 0;
    while n <= LEN_LIMIT
        invariant
            n <= LEN_LIMIT + 1,
            n <= LEN_LIMIT ==> wide_len_from(mem@, a, 0) == wide_len_from(mem@, a, n as int),
            n > LEN_LIMIT ==> wide_len_from(mem@, a, 0) == Ok::<int, Fault>(n as int),
        decreases LEN_LIMIT + 1 - n,
    {
        match mem.read_u16(at(a, 2 * n)) {
            Err(f) => {
                return Err(f);
            },
            Ok(w) => {
                if w == 0 {
                    return Ok(n);
                }
            },
        }
        n = n + 1;
    }
    Ok(n)
}

/// A code unit with the case of ASCII letters dropped where `fold`.
pub open spec fn folded(c: u16, fold: bool) -> u16 {
    if fold && 0x41 <= c <= 0x5a {
        (c + 32) as u16
    } else {
        c
    }
}

/// The order of the strings at `a` and `b` from the `i`-th unit on. Strings
/// that agree over the whole address space are equal.
pub open spec fn wide_order_from(m: MemView, a: u64, b: u64, fold: bool, i: int) -> Result<
    i32,
    Fault,
>
    decreases ALL_UNITS - i,
{
    if i >= ALL_UNITS {
        Ok(0)
    } else {
        match m.r16(ga(a, 2 * i)) {
            Err(f) => Err(f),
            Ok(x) => match m.r16(ga(b, 2 * i)) {
                Err(f) => Err(f),
                Ok(y) => if folded(x, fold) < folded(y, fold) {
                    Ok(-1i32)
                } else if folded(x, fold) > folded(y, fold) {
                    Ok(1)
                } else if x == 0 {
                    Ok(0)
                } else {
                    wide_order_from(m, a, b, fold, i + 1)
                },
            },
        }
    }
}

/// A code unit with the case of ASCII letters dropped where `fold`.
fn fold_unit(c: u16, fold: bool) -> (r: u16)
    ensures
        r == folded(c, fold),
{
    if fold && 0x41 <= c && c <= 0x5a {
        c + 32
    } else {
        c
    }
}

/// Compare two NUL-terminated strings of code units: -1, 0 or 1.
pub fn wide_order(mem: &VirtualMemory, a: u64, b: u64, fold: bool) -> (r: Result<i32, Fault>)
    ensures
        r == wide_order_from(mem@, a, b, fold, 0),
{
    let mut i: u64 = 0;
    while i < ALL_UNITS
        invariant
            i <= ALL_UNITS,
            wide_order_from(mem@, a, b, fold, 0) == wide_order_from(mem@, a, b, fold, i as int),
        decreases ALL_UNITS - i,
    {
        let x: u16 = match mem.read_u16(at(a, 2 * i)) {
            Ok(w) => w,
            Err(f) => {
                return Err(f);
            },
        };
        let y: u16 = match mem.read_u16(at(b, 2 * i)) {
            Ok(w) => w,
            Err(f) => {
                return Err(f);
            },
        };
        let fx: u16 = fold_unit(x, fold);
        let fy: u16 = fold_unit(y, fold);
        if fx < fy {
            return Ok(-1);
        }
        if fx > fy {
            return Ok(1);
        }
        if x == 0 {
            return Ok(0);
        }
        i = i + 1;
    }
    Ok(0)
}

/// The bytes of the string at `a` from the `i`-th on, up to its NUL or to `max`.
pub open spec fn bytes_from(m: MemView, a: u64, max: u64, i: int) -> Result<Seq<u8>, Fault>
    decreases max - i,
{
    if i >= max {
        Ok(Seq::empty())
    } else {
        match m.r8(ga(a, i)) {
            Err(f) => Err(f),
            Ok(b) => if b == 0 {
                Ok(Seq::empty())
            } else {
                match bytes_from(m, a, max, i + 1) {
                    Err(f) => Err(f),
                    Ok(rest) => Ok(seq![b] + rest),
                }
            },
        }
    }
}

/// Read a NUL-terminated string of at most `max` bytes, without its NUL.
pub fn read_cstr(mem: &VirtualMemory, a: u64, max: u64) -> (r: Result<Vec<u8>, Fault>)
    ensures
        match r {
            Ok(v) => bytes_from(mem@, a, max, 0) == Ok::<Seq<u8>, Fault>(v@) && v.len() <= max,
            Err(f) => bytes_from(mem@, a, max, 0) == Err::<Seq<u8>, Fault>(f),
        },
{
    let mut out: Vec<u8> = Vec::new();
    let mut i: u64 = 0;
    let ghost all = bytes_from(mem@, a, max, 0);
    proof {
        match all {
            Ok(rest) => {
                assert(out@ + rest =~= rest);
            },
            Err(_) => {},
        }
    }
    while i < max
        invariant
            i <= max,
            out.len() == i,
            all == bytes_from(mem@, a, max, 0),
            all == (match bytes_from(mem@, a, max, i as int) {
                Err(f) => Err::<Seq<u8>, Fault>(f),
                Ok(rest) => Ok::<Seq<u8>, Fault>(out@ + rest),
            }),
        decreases max - i,
    {
        match mem.read_u8(at(a, i)) {
            Err(f) => {
                return Err(f);
            },
            Ok(b) => {
                if b == 0 {
                    assert(out@ + Seq::<u8>::empty() =~= out@);
                    return Ok(out);
                }
                let ghost before = out@;
                out.push(b);
                proof {
                    match bytes_from(mem@, a, max, i + 1) {
                        Ok(rest) => {
                            assert(before + (seq![b] + rest) =~= out@ + rest);
                        },
                        Err(_) => {},
                    }
                }
            },
        }
        i = i + 1;
    }
    assert(out@ + Seq::<u8>::empty() =~= out@);
    Ok(out)
}

/// The longest byte string that is read.
pub const NARROW_LIMIT: u64 = 0x1_0000;

/// The string of bytes at `a`, decoded; a null pointer is an empty string.
pub open spec fn narrow_text(m: MemView, a: u64) -> Result<Seq<char>, Fault> {
    if a == 0 {
        Ok(Seq::empty())
    } else {
        match bytes_from(m, a, NARROW_LIMIT, 0) {
            Err(f) => Err(f),
            Ok(b) => Ok(utf8_lossy(b)),
        }
    }
}

/// Read a NUL-terminated byte string and decode it.
pub fn read_astr(mem: &VirtualMemory, a: u64) -> (r: Result<String, Fault>)
    ensures
        match r {
            Ok(s) => narrow_text(mem@, a) == Ok::<Seq<char>, Fault>(s@),
            Err(f) => narrow_text(mem@, a) == Err::<Seq<char>, Fault>(f),
        },
{
    if a == 0 {
        let s = String::new();
        assert(s@ =~= Seq::<char>::empty());
        return Ok(s);
    }
    match read_cstr(mem, a, NARROW_LIMIT) {
        Ok(b) => Ok(decode_utf8_lossy(&b)),
        Err(f) => Err(f),
    }
}

/// The string at `a` in the width that the call is made in.
pub open spec fn guest_text(m: MemView, a: u64, wide: bool) -> Result<Seq<char>, Fault> {
    if wide {
        wide_text(m, a)
    } else {
        narrow_text(m, a)
    }
}

/// Read a string in the width that the call is made in.
pub fn read_text(mem: &VirtualMemory, a: u64, wide: bool) -> (r: Result<String, Fault>)
    ensures
        match r {
            Ok(s) => guest_text(mem@, a, wide) == Ok::<Seq<char>, Fault>(s@),
            Err(f) => guest_text(mem@, a, wide) == Err::<Seq<char>, Fault>(f),
        },
{
    if wide {
        read_wstr(mem, a)
    } else {
        read_astr(mem, a)
    }
}

/// Writing `d` to a buffer of `max` bytes, one by one and with a NUL behind: how
/// many went in, without the NUL.
pub open spec fn narrow_write(m: MemView, a: u64, d: Seq<u8>, max: u64) -> Reply {
    if a == 0 || max == 0 {
        answer(m, 0)
    } else {
        let n = fitting(d.len(), max);
        answer_stores(m, byte_table(a, d.take(n as int).push(0)), n as u64)
    }
}

/// Write a string as bytes and a NUL into a buffer of `max` bytes.
pub fn write_astr(mem: &mut VirtualMemory, a: u64, s: &str, max: u64) -> (r: Result<u64, Fault>)
    ensures
        final(mem)@ == narrow_write(old(mem)@, a, encode_utf8(s@), max).mem,
        r == narrow_write(old(mem)@, a, encode_utf8(s@), max).r,
{
    if a == 0 || max == 0 {
        return Ok(0);
    }
    let mut d = s.as_bytes_vec();
    let ghost all = d@;
    let len: u64 = d.len() as u64;
    let n: u64 = if len < max {
        len
    } else {
        max - 1
    };
    d.truncate(n as usize);
    d.push(0);
    assert(d@ =~= all.take(n as int).push(0));
    let t = byte_stores(a, &d);
    match mem.store_all(&t) {
        Ok(_) => Ok(n),
        Err(f) => Err(f),
    }
}

/// The first `n` code units at `a`.
pub open spec fn units_n(m: MemView, a: u64, n: nat) -> Result<Seq<u16>, Fault>
    decreases n,
{
    if n == 0 {
        Ok(Seq::empty())
    } else {
        match units_n(m, a, (n - 1) as nat) {
            Err(f) => Err(f),
            Ok(u) => match m.r16(ga(a, 2 * (n - 1))) {
                Err(f) => Err(f),
                Ok(w) => Ok(u.push(w)),
            },
        }
    }
}

/// Read `n` code units.
pub fn read_units(mem: &VirtualMemory, a: u64, n: u64) -> (r: Result<Vec<u16>, Fault>)
    ensures
        match r {
            Ok(v) => units_n(mem@, a, n as nat) == Ok::<Seq<u16>, Fault>(v@),
            Err(f) => units_n(mem@, a, n as nat) == Err::<Seq<u16>, Fault>(f),
        },
{
    let mut out: Vec<u16> = Vec::new();
    let mut i: u64 = 0;
    assert(out@ =~= Seq::<u16>::empty());
    while i < n
        invariant
            i <= n,
            units_n(mem@, a, i as nat) == Ok::<Seq<u16>, Fault>(out@),
        decreases n - i,
    {
        proof {
            lemma_wrapped_double(a, i);
        }
        match mem.read_u16(at(a, i.wrapping_mul(2))) {
            Err(f) => {
                proof {
                    lemma_units_stop(mem@, a, (i + 1) as nat, n as nat);
                }
                return Err(f);
            },
            Ok(w) => {
                out.push(w);
            },
        }
        i = i + 1;
    }
    Ok(out)
}

/// A prefix that faults stops the read.
proof fn lemma_units_stop(m: MemView, a: u64, k: nat, n: nat)
    requires
        k <= n,
        units_n(m, a, k) is Err,
    ensures
        units_n(m, a, n) == units_n(m, a, k),
    decreases n - k,
{
    if k < n {
        lemma_units_stop(m, a, k + 1, n);
    }
}

/// The text of the counted string at `p`: a length in bytes and, eight bytes
/// on, a pointer to its code units.
pub open spec fn counted_text(m: MemView, p: u64) -> Option<Seq<char>> {
    if p == 0 {
        None
    } else {
        match (m.r16(p), m.r64(ga(p, 8))) {
            (Ok(len), Ok(buf)) => if buf == 0 {
                Some(Seq::empty())
            } else {
                match units_n(m, buf, (len / 2) as nat) {
                    Ok(u) => Some(utf16_lossy(u)),
                    Err(_) => None,
                }
            },
            _ => None,
        }
    }
}

/// Read a counted string.
pub fn read_unicode_string(mem: &VirtualMemory, p: u64) -> (r: Option<String>)
    ensures
        match r {
            Some(s) => counted_text(mem@, p) == Some(s@),
            None => counted_text(mem@, p) is None,
        },
{
    if p == 0 {
        return None;
    }
    let len: u16 = match mem.read_u16(p) {
        Ok(v) => v,
        Err(_) => {
            return None;
        },
    };
    let buf: u64 = match mem.read_u64(at(p, 8)) {
        Ok(v) => v,
        Err(_) => {
            return None;
        },
    };
    if buf == 0 {
        let s = String::new();
        assert(s@ =~= Seq::<char>::empty());
        return Some(s);
    }
    match read_units(mem, buf, (len / 2) as u64) {
        Ok(u) => Some(decode_utf16_lossy(&u)),
        Err(_) => None,
    }
}

/// The stores that lay code units down at `a`.
pub open spec fn unit_table(a: u64, units: Seq<u16>) -> Seq<Store> {
    Seq::new(units.len(), |i: int| s16(ga(a, 2 * i), units[i]))
}

/// The stores that lay code units down at `a`.
pub fn unit_stores(a: u64, units: &Vec<u16>) -> (t: Vec<Store>)
    ensures
        t@ == unit_table(a, units@),
{
    let mut t: Vec<Store> = Vec::new();
    let mut i: usize = 0;
    while i < units.len()
        invariant
            i <= units.len(),
            t.len() == i,
            forall|j: int| 0 <= j < i ==> #[trigger] t@[j] == s16(ga(a, 2 * j), units@[j]),
        decreases units.len() - i,
    {
        t.push(store16(at(a, (i as u64).wrapping_mul(2)), units[i]));
        proof {
            lemma_wrapped_double(a, i as u64);
        }
        i = i + 1;
    }
    assert(t@ =~= unit_table(a, units@));
    t
}

/// As many of `len` code units as fit `max` bytes.
pub open spec fn unit_room(len: nat, max: u64) -> nat {
    if 2 * len <= max {
        len
    } else {
        (max / 2) as nat
    }
}

/// The stores of as many code units as fit `max` bytes, without a NUL.
pub fn bounded_unit_stores(a: u64, units: &Vec<u16>, max: u64) -> (t: Vec<Store>)
    ensures
        t@ == unit_table(a, units@.take(unit_room(units@.len(), max) as int)),
{
    let mut t: Vec<Store> = Vec::new();
    let mut i: usize = 0;
    while i < units.len() && (i as u64) < max / 2
        invariant
            i <= units.len(),
            i <= max / 2,
            t.len() == i,
            forall|j: int| 0 <= j < i ==> #[trigger] t@[j] == s16(ga(a, 2 * j), units@[j]),
        decreases units.len() - i,
    {
        t.push(store16(at(a, (i as u64).wrapping_mul(2)), units[i]));
        proof {
            lemma_wrapped_double(a, i as u64);
        }
        i = i + 1;
    }
    assert(i == unit_room(units@.len(), max));
    assert(t@ =~= unit_table(a, units@.take(i as int)));
    t
}

/// The stores that lay bytes down one by one.
pub open spec fn byte_table(a: u64, d: Seq<u8>) -> Seq<Store> {
    Seq::new(d.len(), |i: int| s8(ga(a, i), d[i]))
}

/// The stores that lay bytes down one by one.
pub fn byte_stores(a: u64, d: &Vec<u8>) -> (t: Vec<Store>)
    ensures
        t@ == byte_table(a, d@),
{
    let mut t: Vec<Store> = Vec::new();
    let mut i: usize = 0;
    while i < d.len()
        invariant
            i <= d.len(),
            t.len() == i,
            forall|j: int| 0 <= j < i ==> #[trigger] t@[j] == s8(ga(a, j), d@[j]),
        decreases d.len() - i,
    {
        t.push(store8(at(a, i as u64), d[i]));
        i = i + 1;
    }
    assert(t@ =~= byte_table(a, d@));
    t
}

} // verus!
