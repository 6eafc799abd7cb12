//! What the guest sees of its process in its own memory: the process environment
//! block, its parameters, the loader lists and the loader lock.

use vstd::prelude::*;

use crate::apiset::{is_hash_order, namespace_bytes, zero_bytes};
use crate::cb::slot;
use crate::config::WinConfig;
use crate::contracts::{build_populated_namespace, default_set};
use crate::env::{env_units, Environment, VarView};
use crate::gstr::{unit_stores, unit_table, wide_stores, wide_table};
use crate::loader::{Loader, LoaderView};
use crate::mem::{
    at, below, fault_result, ga, lemma_store_all_get, s16, s32, s64, s8, sptr, store16, store32,
    store64, store8, store_ptr, Fault, MemView, Store, Stored, VirtualMemory,
};
use crate::text::{chars_of, encode_utf16, string_of, utf16};
use crate::util::{max_int, round_up};

verus! {

/// The longest command line that is measured, in code units.
pub const COMMAND_LIMIT: u64 = 0x4000;

/// The size of the process parameters of 64-bit code.
pub const PARAMETERS_64: u64 = 0x420;

/// The size of the process parameters of 32-bit code.
pub const PARAMETERS_32: u64 = 0x290;

/// The loader structures while they are laid down: where they end, and memory.
pub struct Ldr {
    pub next: u64,
    pub mem: MemView,
}

/// What laying down a structure leads to.
pub struct Laid {
    pub ldr: Ldr,
    pub r: Result<(u64, u64), Fault>,
}

/// Where a structure of `n` bytes goes: below the last one, in whole words.
pub open spec fn taken(next: u64, n: int) -> u64 {
    ga(next, -round_up(n, 8))
}

/// Room for a structure of `n` bytes below `next`.
fn take(next: u64, n: u128) -> (a: u64)
    requires
        n <= 0x4_0000_0000_0000_0000,
    ensures
        a == taken(next, n as int),
{
    let words: u128 = (n + 7) / 8;
    let size: u128 = words * 8;
    let low: u64 = (size % 0x1_0000_0000_0000_0000) as u64;
    proof {
        let m = 0x1_0000_0000_0000_0000int;
        assert(size == round_up(n as int, 8));
        vstd::arithmetic::div_mod::lemma_sub_mod_noop(next as int, size as int, m);
        vstd::arithmetic::div_mod::lemma_sub_mod_noop(next as int, low as int, m);
        vstd::arithmetic::div_mod::lemma_mod_twice(size as int, m);
    }
    below(next, low)
}

/// The stores of a table, and the value that stands for them.
pub open spec fn lay(l: Ldr, t: Seq<Store>, v: (u64, u64)) -> Laid {
    let s = l.mem.store_all(t);
    Laid {
        ldr: Ldr { mem: s.mem, ..l },
        r: match s.fault {
            None => Ok(v),
            Some(f) => Err(f),
        },
    }
}

/// The length of `n` code units in bytes, as a counted string keeps it.
pub open spec fn byte_len(n: nat) -> u16 {
    ga(0, 2 * (n as int)) as u16
}

/// A text laid down with a NUL behind it; its address and length stand for it.
pub open spec fn text_laid(l: Ldr, s: Seq<char>) -> Laid {
    let u = utf16(s);
    let a = taken(l.next, 2 * (u.len() as int) + 2);
    lay(Ldr { next: a, ..l }, wide_table(a, u), (a, byte_len(u.len()) as u64))
}

/// The capacity of a counted string: its length and a NUL.
pub open spec fn capacity(len: u16) -> u16 {
    if len <= 0xFFFD {
        (len + 2) as u16
    } else {
        (len - 0xFFFE) as u16
    }
}

/// A counted string over a buffer.
pub open spec fn counted(is_64bit: bool, a: u64, buf: u64, len: u16) -> Seq<Store> {
    seq![
        s16(a, len),
        s16(ga(a, 2), capacity(len)),
        sptr(is_64bit, ga(a, slot(is_64bit)), buf),
    ]
}

/// A text, and a counted string over it at `a`.
pub open spec fn field_laid(is_64bit: bool, l: Ldr, a: u64, s: Seq<char>) -> Laid {
    let t = text_laid(l, s);
    match t.r {
        Err(_) => t,
        Ok(v) => lay(t.ldr, counted(is_64bit, a, v.0, v.1 as u16), v),
    }
}

/// The length of the text at `a` in code units, counted from `i` on and no
/// further than the limit.
pub open spec fn units_before_nul(m: MemView, a: u64, i: int) -> Result<int, Fault>
    decreases COMMAND_LIMIT - i,
{
    if i >= COMMAND_LIMIT {
        Ok(i)
    } else {
        match m.r16(ga(a, 2 * i)) {
            Err(f) => Err(f),
            Ok(u) => if u == 0 {
                Ok(i)
            } else {
                units_before_nul(m, a, i + 1)
            },
        }
    }
}

/// The command line as a counted string at `a`: that of the application, or the
/// text whose address and length are `own`.
pub open spec fn command_laid(cfg: WinConfig, l: Ldr, a: u64, own: (u64, u64)) -> Laid {
    if cfg.cmdline_ptr_w != 0 {
        match units_before_nul(l.mem, cfg.cmdline_ptr_w, 0) {
            Err(f) => Laid { ldr: l, r: Err(f) },
            Ok(n) => lay(
                l,
                counted(cfg.is_64bit, a, cfg.cmdline_ptr_w, (2 * n) as u16),
                (0, 0),
            ),
        }
    } else {
        lay(l, counted(cfg.is_64bit, a, own.0, own.1 as u16), (0, 0))
    }
}

/// The environment laid down as code units; its address and length in bytes
/// stand for it.
pub open spec fn env_laid(l: Ldr, env: Seq<VarView>) -> Laid {
    let u = env_units(env);
    let a = taken(l.next, max_int(2 * (u.len() as int), 2));
    lay(Ldr { next: a, ..l }, unit_table(a, u), (a, ga(0, 2 * (u.len() as int))))
}

/// A zeroed block with the head of process parameters: two lengths, and the flag
/// that its pointers are addresses.
pub open spec fn params_opened(l: Ldr, n: u64) -> Laid {
    let pp = taken(l.next, n as int);
    let s = l.mem.write(pp, zero_bytes(n as int));
    let z = Ldr { next: pp, mem: s.mem };
    match s.fault {
        Some(f) => Laid { ldr: z, r: Err(f) },
        None => lay(
            z,
            seq![s32(pp, n as u32), s32(ga(pp, 4), n as u32), s32(ga(pp, 8), 1)],
            (pp, 0),
        ),
    }
}

/// Four empty counted strings over one empty text.
pub open spec fn titles_laid(l: Ldr, pp: u64) -> Laid {
    let t = text_laid(l, Seq::empty());
    match t.r {
        Err(_) => t,
        Ok(v) => lay(
            t.ldr,
            counted(true, ga(pp, 0xb0), v.0, 0) + counted(true, ga(pp, 0xc0), v.0, 0) + counted(
                true,
                ga(pp, 0xd0),
                v.0,
                0,
            ) + counted(true, ga(pp, 0xe0), v.0, 0),
            (pp, 0),
        ),
    }
}

/// The environment behind the process parameters at `pp`, and its size where the
/// parameters keep it.
pub open spec fn env_linked(is_64bit: bool, l: Ldr, pp: u64, env: Seq<VarView>) -> Laid {
    let e = env_laid(l, env);
    match e.r {
        Err(_) => e,
        Ok(v) => lay(
            e.ldr,
            if is_64bit {
                seq![sptr(true, ga(pp, 0x80), v.0), s64(ga(pp, 0x3f0), v.1)]
            } else {
                seq![sptr(false, ga(pp, 0x48), v.0)]
            },
            (pp, 0),
        ),
    }
}

/// The process parameters of 64-bit code: the directories, the path of the
/// image, the command line, the environment and four empty titles.
#[verifier::opaque]
pub open spec fn params_64(cfg: WinConfig, l: Ldr, env: Seq<VarView>) -> Laid {
    let a = params_opened(l, PARAMETERS_64);
    match a.r {
        Err(_) => a,
        Ok(p) => {
            let pp = p.0;
            let b = field_laid(true, a.ldr, ga(pp, 0x38), "C:\\"@);
            match b.r {
                Err(_) => b,
                Ok(_) => {
                    let c = field_laid(true, b.ldr, ga(pp, 0x50), "C:\\windows\\system32"@);
                    match c.r {
                        Err(_) => c,
                        Ok(_) => {
                            let d = field_laid(true, c.ldr, ga(pp, 0x60), cfg.module_path_w@);
                            match d.r {
                                Err(_) => d,
                                Ok(img) => {
                                    let e = command_laid(cfg, d.ldr, ga(pp, 0x70), img);
                                    match e.r {
                                        Err(_) => e,
                                        Ok(_) => {
                                            let f = env_linked(true, e.ldr, pp, env);
                                            match f.r {
                                                Err(_) => f,
                                                Ok(_) => titles_laid(f.ldr, pp),
                                            }
                                        },
                                    }
                                },
                            }
                        },
                    }
                },
            }
        },
    }
}

/// The process parameters of 32-bit code: the path of the image, the command
/// line and the environment.
#[verifier::opaque]
pub open spec fn params_32(cfg: WinConfig, l: Ldr, env: Seq<VarView>) -> Laid {
    let a = params_opened(l, PARAMETERS_32);
    match a.r {
        Err(_) => a,
        Ok(p) => {
            let pp = p.0;
            let d = field_laid(false, a.ldr, ga(pp, 0x38), cfg.module_path_w@);
            match d.r {
                Err(_) => d,
                Ok(img) => {
                    let e = command_laid(cfg, d.ldr, ga(pp, 0x40), img);
                    match e.r {
                        Err(_) => e,
                        Ok(_) => env_linked(false, e.ldr, pp, env),
                    }
                },
            }
        },
    }
}

/// The process parameters; their address stands for them.
pub open spec fn params_laid(cfg: WinConfig, l: Ldr, env: Seq<VarView>) -> Laid {
    if cfg.is_64bit {
        params_64(cfg, l, env)
    } else {
        params_32(cfg, l, env)
    }
}

/// The fields of the process environment block: no debugger, no flags, Windows
/// 10.0.19045, session 0.
pub open spec fn peb_table(cfg: WinConfig) -> Seq<Store> {
    let p = cfg.peb_addr;
    if cfg.is_64bit {
        seq![
            s8(ga(p, 0x02), 0),
            s32(ga(p, 0xBC), 0),
            s32(ga(p, 0x118), 10),
            s32(ga(p, 0x11C), 0),
            s16(ga(p, 0x120), 19045),
            s32(ga(p, 0x124), 2),
            s32(ga(p, 0x2C0), 0),
        ]
    } else {
        seq![
            s8(ga(p, 0x02), 0),
            s32(ga(p, 0x68), 0),
            s32(ga(p, 0xA4), 10),
            s32(ga(p, 0xA8), 0),
            s16(ga(p, 0xAC), 19045),
            s32(ga(p, 0xB0), 2),
            s32(ga(p, 0x1D4), 0),
        ]
    }
}

/// Where the process environment block keeps its parameters.
pub open spec fn params_off(is_64bit: bool) -> int {
    if is_64bit {
        0x20
    } else {
        0x10
    }
}

/// The process environment block with its parameters.
#[verifier::opaque]
pub open spec fn peb_laid(cfg: WinConfig, l: Ldr, env: Seq<VarView>) -> Laid {
    let a = lay(l, peb_table(cfg), (0, 0));
    match a.r {
        Err(_) => a,
        Ok(_) => {
            let b = params_laid(cfg, a.ldr, env);
            match b.r {
                Err(_) => b,
                Ok(p) => lay(
                    b.ldr,
                    seq![sptr(cfg.is_64bit, ga(cfg.peb_addr, params_off(cfg.is_64bit)), p.0)],
                    (p.0, 0),
                ),
            }
        },
    }
}

/// Where the loader data keeps the heads of its three lists.
pub open spec fn head_off(is_64bit: bool, k: int) -> int {
    if is_64bit {
        0x10 + 0x10 * k
    } else {
        0x0c + 8 * k
    }
}

/// Where an entry keeps its links in the three lists.
pub open spec fn link_off(is_64bit: bool, k: int) -> int {
    if is_64bit {
        16 * k
    } else {
        8 * k
    }
}

/// The size of the loader data.
pub open spec fn heads_size(is_64bit: bool) -> u32 {
    if is_64bit {
        0x58
    } else {
        0x30
    }
}

/// An empty list: its head leads to itself, both ways.
pub open spec fn empty_list(is_64bit: bool, head: u64) -> Seq<Store> {
    seq![sptr(is_64bit, head, head), sptr(is_64bit, ga(head, slot(is_64bit)), head)]
}

/// Loader data with three empty lists, published in the process environment
/// block.
pub open spec fn heads_table(cfg: WinConfig, d: u64) -> Seq<Store> {
    let w = cfg.is_64bit;
    seq![s32(d, heads_size(w)), s32(ga(d, 4), 1)] + empty_list(w, ga(d, head_off(w, 0)))
        + empty_list(w, ga(d, head_off(w, 1))) + empty_list(w, ga(d, head_off(w, 2))) + seq![
        sptr(w, ga(cfg.peb_addr, cfg.peb_ldr_off as int), d),
    ]
}

/// Where the loader structures start.
pub open spec fn ldr_top(cfg: WinConfig, next: u64) -> u64 {
    if next == 0 {
        ga(cfg.dll_base, cfg.dll_size as int)
    } else {
        next
    }
}

/// The loader data with its lists.
#[verifier::opaque]
pub open spec fn heads_laid(cfg: WinConfig, next: u64, m: MemView) -> Laid {
    let d = taken(ldr_top(cfg, next), heads_size(cfg.is_64bit) as int);
    lay(Ldr { next: d, mem: m }, heads_table(cfg, d), (d, 0))
}

/// A lock that nobody holds.
pub open spec fn free_lock(is_64bit: bool, cs: u64) -> Seq<Store> {
    let p = slot(is_64bit);
    seq![
        sptr(is_64bit, cs, 0),
        s32(ga(cs, p), u32::MAX),
        s32(ga(cs, p + 4), 0),
        sptr(is_64bit, ga(cs, p + 8), 0),
        sptr(is_64bit, ga(cs, p + 8 + p), 0),
        sptr(is_64bit, ga(cs, p + 8 + 2 * p), 0),
    ]
}

/// The loader lock, published in the process environment block.
#[verifier::opaque]
pub open spec fn lock_laid(cfg: WinConfig, l: Ldr) -> Laid {
    let cs = taken(
        l.next,
        if cfg.is_64bit {
            0x28
        } else {
            0x18
        },
    );
    lay(
        Ldr { next: cs, ..l },
        free_lock(cfg.is_64bit, cs) + (if cfg.peb_loaderlock_off != 0 {
            seq![sptr(cfg.is_64bit, ga(cfg.peb_addr, cfg.peb_loaderlock_off as int), cs)]
        } else {
            seq![]
        }),
        (cs, 0),
    )
}

/// A link inserted at the tail of a list: between the old tail and the head.
pub open spec fn appended(is_64bit: bool, m: MemView, head: u64, link: u64) -> Stored {
    let p = slot(is_64bit);
    match m.rptr(is_64bit, ga(head, p)) {
        Err(f) => Stored { mem: m, fault: Some(f) },
        Ok(tail) => m.store_all(
            seq![
                sptr(is_64bit, link, head),
                sptr(is_64bit, ga(link, p), tail),
                sptr(is_64bit, tail, link),
                sptr(is_64bit, ga(head, p), link),
            ],
        ),
    }
}

/// The links of an entry at the tails of the first `k` lists.
pub open spec fn appended_all(is_64bit: bool, m: MemView, d: u64, te: u64, k: nat) -> Stored
    decreases k,
{
    if k == 0 {
        Stored { mem: m, fault: None }
    } else {
        let s = appended_all(is_64bit, m, d, te, (k - 1) as nat);
        if s.fault is Some {
            s
        } else {
            appended(
                is_64bit,
                s.mem,
                ga(d, head_off(is_64bit, k - 1)),
                ga(te, link_off(is_64bit, k - 1)),
            )
        }
    }
}

/// Insertions that a fault ended go no further.
proof fn lemma_appended_stops(is_64bit: bool, m: MemView, d: u64, te: u64, k: nat, n: nat)
    requires
        k <= n,
        appended_all(is_64bit, m, d, te, k).fault is Some,
    ensures
        appended_all(is_64bit, m, d, te, n) == appended_all(is_64bit, m, d, te, k),
    decreases n - k,
{
    if k < n {
        lemma_appended_stops(is_64bit, m, d, te, k, (n - 1) as nat);
    }
}

/// An image as its entry in the loader lists describes it.
pub struct EntryInfo {
    pub base: u64,
    pub size: u64,
    pub entry: u64,
    pub name: Seq<char>,
    pub full: Seq<char>,
}

/// The size of an entry.
pub open spec fn entry_size(is_64bit: bool) -> int {
    if is_64bit {
        0x68
    } else {
        0x38
    }
}

/// The fields of an entry at `te`, over the texts of its full and base name.
pub open spec fn entry_table(
    is_64bit: bool,
    te: u64,
    i: EntryInfo,
    full: (u64, u64),
    name: (u64, u64),
) -> Seq<Store> {
    if is_64bit {
        seq![
            sptr(true, ga(te, 0x30), i.base),
            sptr(true, ga(te, 0x38), i.entry),
            sptr(true, ga(te, 0x40), i.size),
        ] + counted(true, ga(te, 0x48), full.0, full.1 as u16) + counted(
            true,
            ga(te, 0x58),
            name.0,
            name.1 as u16,
        )
    } else {
        seq![
            sptr(false, ga(te, 0x18), i.base),
            sptr(false, ga(te, 0x1c), i.entry),
            sptr(false, ga(te, 0x20), i.size),
        ] + counted(false, ga(te, 0x24), full.0, full.1 as u16) + counted(
            false,
            ga(te, 0x2c),
            name.0,
            name.1 as u16,
        )
    }
}

/// The fields of an entry at `te` whose names are laid down, and its links at the tails of the
/// three lists of the loader data `d`.
#[verifier::opaque]
pub open spec fn entry_laid(
    is_64bit: bool,
    d: u64,
    te: u64,
    l: Ldr,
    i: EntryInfo,
    full: (u64, u64),
    name: (u64, u64),
) -> Laid {
    let c = lay(l, entry_table(is_64bit, te, i, full, name), (te, 0));
    match c.r {
        Err(_) => c,
        Ok(_) => {
            let s = appended_all(is_64bit, c.ldr.mem, d, te, 3);
            Laid {
                ldr: Ldr { mem: s.mem, ..c.ldr },
                r: match s.fault {
                    None => Ok((te, 0)),
                    Some(f) => Err(f),
                },
            }
        },
    }
}

/// An entry for an image, at the tail of the three lists of the loader data `d`;
/// its address stands for it.
#[verifier::opaque]
pub open spec fn entry_threaded(is_64bit: bool, d: u64, l: Ldr, i: EntryInfo) -> Laid {
    let te = taken(l.next, entry_size(is_64bit));
    let a = text_laid(Ldr { next: te, ..l }, i.full);
    match a.r {
        Err(_) => a,
        Ok(full) => {
            let b = text_laid(a.ldr, i.name);
            match b.r {
                Err(_) => b,
                Ok(name) => entry_laid(is_64bit, d, te, b.ldr, i, full, name),
            }
        },
    }
}

/// The main image as its entry describes it.
pub open spec fn main_info(cfg: WinConfig) -> EntryInfo {
    EntryInfo {
        base: cfg.image_base,
        size: cfg.image_size,
        entry: cfg.image_entry,
        name: if cfg.image_name@.len() == 0 {
            "program.exe"@
        } else {
            cfg.image_name@
        },
        full: cfg.module_path_w@,
    }
}

/// The loader and memory after a step.
pub struct LdrOut {
    pub dll: LoaderView,
    pub mem: MemView,
    pub r: Result<(), Fault>,
}

/// The loader with its structures ending where a step left them.
pub open spec fn ldr_at(dll: LoaderView, a: Laid) -> LdrOut {
    LdrOut {
        dll: LoaderView { ldr_next: a.ldr.next, ..dll },
        mem: a.ldr.mem,
        r: match a.r {
            Ok(_) => Ok(()),
            Err(f) => Err(f),
        },
    }
}

/// What building the loader structures leads to: lists, process environment
/// block, lock, and the main image as the first entry. Without a process
/// environment block there is nothing to build.
pub open spec fn init_ldr_out(cfg: WinConfig, env: Seq<VarView>, dll: LoaderView, m: MemView) -> LdrOut {
    if cfg.peb_addr == 0 {
        LdrOut { dll, mem: m, r: Ok(()) }
    } else {
        let a = heads_laid(cfg, dll.ldr_next, m);
        let d = LoaderView { ldr_data: a.ldr.next, ..dll };
        match a.r {
            Err(_) => ldr_at(d, a),
            Ok(_) => {
                let b = peb_laid(cfg, a.ldr, env);
                match b.r {
                    Err(_) => ldr_at(d, b),
                    Ok(_) => {
                        let c = lock_laid(cfg, b.ldr);
                        let e = LoaderView { lock: c.ldr.next, ..d };
                        match c.r {
                            Err(_) => ldr_at(e, c),
                            Ok(_) => ldr_at(
                                e,
                                entry_threaded(cfg.is_64bit, d.ldr_data, c.ldr, main_info(cfg)),
                            ),
                        }
                    },
                }
            },
        }
    }
}

// ---- the code ---------------------------------------------------------------

/// Store a table.
fn put(mem: &mut VirtualMemory, next: Ghost<u64>, t: &Vec<Store>, v: (u64, u64)) -> (r: Result<
    (u64, u64),
    Fault,
>)
    requires
        crate::mem::table_ok(t@),
    ensures
        (Laid { ldr: Ldr { next: next@, mem: final(mem)@ }, r }) == lay(
            Ldr { next: next@, mem: old(mem)@ },
            t@,
            v,
        ),
{
    match mem.store_all(t) {
        Ok(_) => Ok(v),
        Err(f) => Err(f),
    }
}

/// Lay a text down with a NUL behind it.
pub fn ldr_write_wstr(next: &mut u64, mem: &mut VirtualMemory, s: &str) -> (r: Result<
    (u64, u64),
    Fault,
>)
    ensures
        (Laid { ldr: Ldr { next: *final(next), mem: final(mem)@ }, r }) == text_laid(
            Ldr { next: *old(next), mem: old(mem)@ },
            s@,
        ),
{
    let u = encode_utf16(s);
    let n: usize = u.len();
    let a: u64 = take(*next, n as u128 * 2 + 2);
    *next = a;
    let t = wide_stores(a, &u, n);
    assert(u@.take(n as int) =~= u@);
    let len: u64 = (n as u64).wrapping_mul(2);
    put(mem, Ghost(a), &t, (a, (len as u16) as u64))
}

/// A counted string over a buffer.
fn counted_stores(is_64bit: bool, a: u64, buf: u64, len: u16) -> (t: Vec<Store>)
    ensures
        t@ == counted(is_64bit, a, buf, len),
{
    let t: Vec<Store> = vec![
        store16(a, len),
        store16(at(a, 2), len.wrapping_add(2)),
        store_ptr(
            is_64bit,
            at(
                a,
                if is_64bit {
                    8
                } else {
                    4
                },
            ),
            buf,
        ),
    ];
    assert(t@ =~= counted(is_64bit, a, buf, len));
    t
}

/// A text, and a counted string over it.
fn write_field(is_64bit: bool, next: &mut u64, mem: &mut VirtualMemory, a: u64, s: &str) -> (r: Result<
    (u64, u64),
    Fault,
>)
    ensures
        (Laid { ldr: Ldr { next: *final(next), mem: final(mem)@ }, r }) == field_laid(
            is_64bit,
            Ldr { next: *old(next), mem: old(mem)@ },
            a,
            s@,
        ),
{
    let v = match ldr_write_wstr(next, mem, s) {
        Ok(v) => v,
        Err(f) => {
            return Err(f);
        },
    };
    let t = counted_stores(is_64bit, a, v.0, v.1 as u16);
    put(mem, Ghost(*next), &t, v)
}

/// The length of the text at `a` in code units.
fn count_units(mem: &VirtualMemory, a: u64) -> (r: Result<u64, Fault>)
    ensures
        match r {
            Ok(n) => units_before_nul(mem@, a, 0) == Ok::<int, Fault>(n as int) && n
                <= COMMAND_LIMIT,
            Err(f) => units_before_nul(mem@, a, 0) == Err::<int, Fault>(f),
        },
{
    let mut i: u64 = 0;
    while i < COMMAND_LIMIT
        invariant
            i <= COMMAND_LIMIT,
            units_before_nul(mem@, a, 0) == units_before_nul(mem@, a, i as int),
        decreases COMMAND_LIMIT - i,
    {
        match mem.read_u16(at(a, i * 2)) {
            Err(f) => {
                return Err(f);
            },
            Ok(u) => {
                if u == 0 {
                    return Ok(i);
                }
            },
        }
        i = i + 1;
    }
    Ok(i)
}

/// The command line as a counted string.
fn write_command(
    cfg: &WinConfig,
    next: u64,
    mem: &mut VirtualMemory,
    a: u64,
    own: (u64, u64),
) -> (r: Result<(u64, u64), Fault>)
    ensures
        (Laid { ldr: Ldr { next, mem: final(mem)@ }, r }) == command_laid(
            *cfg,
            Ldr { next, mem: old(mem)@ },
            a,
            own,
        ),
{
    if cfg.cmdline_ptr_w != 0 {
        let n: u64 = match count_units(mem, cfg.cmdline_ptr_w) {
            Ok(n) => n,
            Err(f) => {
                return Err(f);
            },
        };
        let t = counted_stores(cfg.is_64bit, a, cfg.cmdline_ptr_w, (n * 2) as u16);
        put(mem, Ghost(next), &t, (0, 0))
    } else {
        let t = counted_stores(cfg.is_64bit, a, own.0, own.1 as u16);
        put(mem, Ghost(next), &t, (0, 0))
    }
}

/// The environment behind the process parameters.
fn write_env_block(
    is_64bit: bool,
    next: &mut u64,
    mem: &mut VirtualMemory,
    pp: u64,
    env: &Environment,
) -> (r: Result<(u64, u64), Fault>)
    ensures
        (Laid { ldr: Ldr { next: *final(next), mem: final(mem)@ }, r }) == env_linked(
            is_64bit,
            Ldr { next: *old(next), mem: old(mem)@ },
            pp,
            env@,
        ),
{
    let u = env.env_block_utf16();
    let n: usize = u.len();
    let bytes: u128 = n as u128 * 2;
    let a: u64 = take(
        *next,
        if bytes < 2 {
            2
        } else {
            bytes
        },
    );
    *next = a;
    let t = unit_stores(a, &u);
    let len: u64 = (n as u64).wrapping_mul(2);
    match put(mem, Ghost(a), &t, (a, len)) {
        Ok(_) => {},
        Err(f) => {
            return Err(f);
        },
    }
    if is_64bit {
        let t: Vec<Store> = vec![store_ptr(true, at(pp, 0x80), a), store64(at(pp, 0x3f0), len)];
        assert(t@ =~= seq![sptr(true, ga(pp, 0x80), a), s64(ga(pp, 0x3f0), len)]);
        put(mem, Ghost(a), &t, (pp, 0))
    } else {
        let t: Vec<Store> = vec![store_ptr(false, at(pp, 0x48), a)];
        assert(t@ =~= seq![sptr(false, ga(pp, 0x48), a)]);
        put(mem, Ghost(a), &t, (pp, 0))
    }
}

/// A zeroed block with the head of process parameters.
fn open_params(next: &mut u64, mem: &mut VirtualMemory, n: u64) -> (r: Result<(u64, u64), Fault>)
    requires
        n <= 0x1000,
    ensures
        (Laid { ldr: Ldr { next: *final(next), mem: final(mem)@ }, r }) == params_opened(
            Ldr { next: *old(next), mem: old(mem)@ },
            n,
        ),
{
    let pp: u64 = take(*next, n as u128);
    *next = pp;
    let zeros = crate::fs::zero_bytes(n as usize);
    assert(zeros@ =~= zero_bytes(n as int));
    match mem.write(pp, &zeros) {
        Ok(_) => {},
        Err(f) => {
            return Err(f);
        },
    }
    let t: Vec<Store> = vec![
        store32(pp, n as u32),
        store32(at(pp, 4), n as u32),
        store32(at(pp, 8), 1),
    ];
    assert(t@ =~= seq![s32(pp, n as u32), s32(ga(pp, 4), n as u32), s32(ga(pp, 8), 1)]);
    put(mem, Ghost(pp), &t, (pp, 0))
}

/// Four empty counted strings.
fn write_titles(next: &mut u64, mem: &mut VirtualMemory, pp: u64) -> (r: Result<(u64, u64), Fault>)
    ensures
        (Laid { ldr: Ldr { next: *final(next), mem: final(mem)@ }, r }) == titles_laid(
            Ldr { next: *old(next), mem: old(mem)@ },
            pp,
        ),
{
    proof {
        reveal_strlit("");
        assert(""@ =~= Seq::<char>::empty());
    }
    let v = match ldr_write_wstr(next, mem, "") {
        Ok(v) => v,
        Err(f) => {
            return Err(f);
        },
    };
    let mut t = counted_stores(true, at(pp, 0xb0), v.0, 0);
    let mut b = counted_stores(true, at(pp, 0xc0), v.0, 0);
    let mut c = counted_stores(true, at(pp, 0xd0), v.0, 0);
    let mut d = counted_stores(true, at(pp, 0xe0), v.0, 0);
    t.append(&mut b);
    t.append(&mut c);
    t.append(&mut d);
    put(mem, Ghost(*next), &t, (pp, 0))
}

/// Lay down the process parameters of 64-bit code.
fn build_process_parameters_64(
    cfg: &WinConfig,
    env: &Environment,
    next: &mut u64,
    mem: &mut VirtualMemory,
) -> (r: Result<(u64, u64), Fault>)
    ensures
        (Laid { ldr: Ldr { next: *final(next), mem: final(mem)@ }, r }) == params_64(
            *cfg,
            Ldr { next: *old(next), mem: old(mem)@ },
            env@,
        ),
{
    proof {
        reveal(params_64);
    }
    let pp: u64 = match open_params(next, mem, PARAMETERS_64) {
        Ok(v) => v.0,
        Err(f) => {
            return Err(f);
        },
    };
    match write_field(true, next, mem, at(pp, 0x38), "C:\\") {
        Ok(_) => {},
        Err(f) => {
            return Err(f);
        },
    }
    match write_field(true, next, mem, at(pp, 0x50), "C:\\windows\\system32") {
        Ok(_) => {},
        Err(f) => {
            return Err(f);
        },
    }
    let img = match write_field(true, next, mem, at(pp, 0x60), cfg.module_path_w.as_str()) {
        Ok(v) => v,
        Err(f) => {
            return Err(f);
        },
    };
    match write_command(cfg, *next, mem, at(pp, 0x70), img) {
        Ok(_) => {},
        Err(f) => {
            return Err(f);
        },
    }
    match write_env_block(true, next, mem, pp, env) {
        Ok(_) => {},
        Err(f) => {
            return Err(f);
        },
    }
    write_titles(next, mem, pp)
}

/// Lay down the process parameters of 32-bit code.
fn build_process_parameters_32(
    cfg: &WinConfig,
    env: &Environment,
    next: &mut u64,
    mem: &mut VirtualMemory,
) -> (r: Result<(u64, u64), Fault>)
    ensures
        (Laid { ldr: Ldr { next: *final(next), mem: final(mem)@ }, r }) == params_32(
            *cfg,
            Ldr { next: *old(next), mem: old(mem)@ },
            env@,
        ),
{
    proof {
        reveal(params_32);
    }
    let pp: u64 = match open_params(next, mem, PARAMETERS_32) {
        Ok(v) => v.0,
        Err(f) => {
            return Err(f);
        },
    };
    let img = match write_field(false, next, mem, at(pp, 0x38), cfg.module_path_w.as_str()) {
        Ok(v) => v,
        Err(f) => {
            return Err(f);
        },
    };
    match write_command(cfg, *next, mem, at(pp, 0x40), img) {
        Ok(_) => {},
        Err(f) => {
            return Err(f);
        },
    }
    write_env_block(false, next, mem, pp, env)
}

/// Fill the process environment block.
fn seed_peb(cfg: &WinConfig, env: &Environment, next: &mut u64, mem: &mut VirtualMemory) -> (r: Result<
    (u64, u64),
    Fault,
>)
    ensures
        (Laid { ldr: Ldr { next: *final(next), mem: final(mem)@ }, r }) == peb_laid(
            *cfg,
            Ldr { next: *old(next), mem: old(mem)@ },
            env@,
        ),
{
    proof {
        reveal(peb_laid);
    }
    let p: u64 = cfg.peb_addr;
    let t: Vec<Store> = if cfg.is_64bit {
        vec![
            store8(at(p, 0x02), 0),
            store32(at(p, 0xBC), 0),
            store32(at(p, 0x118), 10),
            store32(at(p, 0x11C), 0),
            store16(at(p, 0x120), 19045),
            store32(at(p, 0x124), 2),
            store32(at(p, 0x2C0), 0),
        ]
    } else {
        vec![
            store8(at(p, 0x02), 0),
            store32(at(p, 0x68), 0),
            store32(at(p, 0xA4), 10),
            store32(at(p, 0xA8), 0),
            store16(at(p, 0xAC), 19045),
            store32(at(p, 0xB0), 2),
            store32(at(p, 0x1D4), 0),
        ]
    };
    assert(t@ =~= peb_table(*cfg));
    match put(mem, Ghost(*next), &t, (0, 0)) {
        Ok(_) => {},
        Err(f) => {
            return Err(f);
        },
    }
    let params = if cfg.is_64bit {
        build_process_parameters_64(cfg, env, next, mem)
    } else {
        build_process_parameters_32(cfg, env, next, mem)
    };
    let pp: u64 = match params {
        Ok(v) => v.0,
        Err(f) => {
            return Err(f);
        },
    };
    let off: u64 = if cfg.is_64bit {
        0x20
    } else {
        0x10
    };
    let t: Vec<Store> = vec![store_ptr(cfg.is_64bit, at(p, off), pp)];
    assert(t@ =~= seq![sptr(cfg.is_64bit, ga(p, params_off(cfg.is_64bit)), pp)]);
    put(mem, Ghost(*next), &t, (pp, 0))
}

/// Insert a link at the tail of a list.
pub fn list_insert_tail(is_64bit: bool, mem: &mut VirtualMemory, head: u64, link: u64) -> (r: Result<
    (),
    Fault,
>)
    ensures
        final(mem)@ == appended(is_64bit, old(mem)@, head, link).mem,
        r == fault_result(appended(is_64bit, old(mem)@, head, link).fault),
{
    let p: u64 = if is_64bit {
        8
    } else {
        4
    };
    let tail: u64 = match mem.read_ptr(is_64bit, at(head, p)) {
        Ok(t) => t,
        Err(f) => {
            return Err(f);
        },
    };
    let t: Vec<Store> = vec![
        store_ptr(is_64bit, link, head),
        store_ptr(is_64bit, at(link, p), tail),
        store_ptr(is_64bit, tail, link),
        store_ptr(is_64bit, at(head, p), link),
    ];
    assert(t@ =~= seq![
        sptr(is_64bit, link, head),
        sptr(is_64bit, ga(link, p as int), tail),
        sptr(is_64bit, tail, link),
        sptr(is_64bit, ga(head, p as int), link),
    ]);
    mem.store_all(&t)
}

/// Insert the links of an entry at the tails of the three lists.
fn append_links(is_64bit: bool, mem: &mut VirtualMemory, d: u64, te: u64) -> (r: Result<(), Fault>)
    ensures
        final(mem)@ == appended_all(is_64bit, old(mem)@, d, te, 3).mem,
        r == fault_result(appended_all(is_64bit, old(mem)@, d, te, 3).fault),
{
    let ghost m = mem@;
    let mut k: u64 = 0;
    while k < 3
        invariant
            k <= 3,
            m == old(mem)@,
            appended_all(is_64bit, m, d, te, k as nat) == (Stored { mem: mem@, fault: None }),
        decreases 3 - k,
    {
        let head: u64 = at(
            d,
            if is_64bit {
                0x10 + 0x10 * k
            } else {
                0x0c + 8 * k
            },
        );
        let link: u64 = at(
            te,
            if is_64bit {
                16 * k
            } else {
                8 * k
            },
        );
        match list_insert_tail(is_64bit, mem, head, link) {
            Ok(_) => {},
            Err(f) => {
                proof {
                    lemma_appended_stops(is_64bit, m, d, te, (k + 1) as nat, 3);
                }
                return Err(f);
            },
        }
        k = k + 1;
    }
    Ok(())
}

/// What an entry says of an image.
pub struct EntryData<'a> {
    pub base: u64,
    pub size: u64,
    pub entry: u64,
    pub name: &'a str,
    pub full: &'a str,
}

impl<'a> EntryData<'a> {
    /// The same as mathematics.
    pub open spec fn info(self) -> EntryInfo {
        EntryInfo {
            base: self.base,
            size: self.size,
            entry: self.entry,
            name: self.name@,
            full: self.full@,
        }
    }
}

/// The stores of the entry of an image.
fn entry_stores(
    is_64bit: bool,
    te: u64,
    i: &EntryData<'_>,
    full: (u64, u64),
    name: (u64, u64),
) -> (t: Vec<Store>)
    ensures
        t@ == entry_table(is_64bit, te, i.info(), full, name),
        crate::mem::table_ok(t@),
{
    let mut t: Vec<Store> = if is_64bit {
        vec![
            store_ptr(true, at(te, 0x30), i.base),
            store_ptr(true, at(te, 0x38), i.entry),
            store_ptr(true, at(te, 0x40), i.size),
        ]
    } else {
        vec![
            store_ptr(false, at(te, 0x18), i.base),
            store_ptr(false, at(te, 0x1c), i.entry),
            store_ptr(false, at(te, 0x20), i.size),
        ]
    };
    let mut a = counted_stores(
        is_64bit,
        at(
            te,
            if is_64bit {
                0x48
            } else {
                0x24
            },
        ),
        full.0,
        full.1 as u16,
    );
    let mut b = counted_stores(
        is_64bit,
        at(
            te,
            if is_64bit {
                0x58
            } else {
                0x2c
            },
        ),
        name.0,
        name.1 as u16,
    );
    t.append(&mut a);
    t.append(&mut b);
    assert(t@ =~= entry_table(is_64bit, te, i.info(), full, name));
    t
}

/// Lay down the fields of an entry, and insert its links.
fn lay_entry(
    is_64bit: bool,
    d: u64,
    te: u64,
    next: Ghost<u64>,
    mem: &mut VirtualMemory,
    i: &EntryData<'_>,
    full: (u64, u64),
    name: (u64, u64),
) -> (r: Result<(u64, u64), Fault>)
    ensures
        (Laid { ldr: Ldr { next: next@, mem: final(mem)@ }, r }) == entry_laid(
            is_64bit,
            d,
            te,
            Ldr { next: next@, mem: old(mem)@ },
            i.info(),
            full,
            name,
        ),
{
    proof {
        reveal(entry_laid);
    }
    let t = entry_stores(is_64bit, te, i, full, name);
    match put(mem, next, &t, (te, 0)) {
        Ok(_) => {},
        Err(f) => {
            return Err(f);
        },
    }
    match append_links(is_64bit, mem, d, te) {
        Ok(_) => Ok((te, 0)),
        Err(f) => Err(f),
    }
}

/// Lay down the entry of an image, at the tail of the three lists of the loader
/// data `d`.
pub fn ldr_thread_entry(
    is_64bit: bool,
    d: u64,
    next: &mut u64,
    mem: &mut VirtualMemory,
    i: &EntryData<'_>,
) -> (r: Result<(u64, u64), Fault>)
    ensures
        (Laid { ldr: Ldr { next: *final(next), mem: final(mem)@ }, r }) == entry_threaded(
            is_64bit,
            d,
            Ldr { next: *old(next), mem: old(mem)@ },
            i.info(),
        ),
{
    proof {
        reveal(entry_threaded);
    }
    let te: u64 = take(
        *next,
        if is_64bit {
            0x68
        } else {
            0x38
        },
    );
    *next = te;
    let full = match ldr_write_wstr(next, mem, i.full) {
        Ok(v) => v,
        Err(f) => {
            return Err(f);
        },
    };
    let name = match ldr_write_wstr(next, mem, i.name) {
        Ok(v) => v,
        Err(f) => {
            return Err(f);
        },
    };
    lay_entry(is_64bit, d, te, Ghost(*next), mem, i, full, name)
}

// ---- the loader's own structures ----------------------------------------------

/// What threading a loaded image onto the lists leads to. Without lists there is
/// nothing to do.
pub open spec fn add_module_out(cfg: WinConfig, dll: LoaderView, m: MemView, i: int) -> LdrOut {
    if cfg.peb_addr == 0 || dll.ldr_data == 0 {
        LdrOut { dll, mem: m, r: Ok(()) }
    } else {
        let v = dll.modules[i];
        let a = entry_threaded(
            cfg.is_64bit,
            dll.ldr_data,
            Ldr { next: dll.ldr_next, mem: m },
            EntryInfo {
                base: v.base,
                size: v.size,
                entry: v.entry,
                name: v.name,
                full: v.full_path,
            },
        );
        let o = ldr_at(dll, a);
        match a.r {
            Err(_) => o,
            Ok(te) => LdrOut {
                dll: o.dll.with_module(i, crate::loader::ModuleView { ldr_entry: te.0, ..v }),
                ..o
            },
        }
    }
}

/// The words of the loader lock while it is held `depth` times by a thread.
pub open spec fn held_lock(is_64bit: bool, cs: u64, depth: u32, tid: u32) -> Seq<Store> {
    let p = slot(is_64bit);
    seq![
        s32(ga(cs, p), (depth - 1) as u32),
        s32(ga(cs, p + 4), depth),
        sptr(is_64bit, ga(cs, p + 8), tid as u64),
    ]
}

/// What taking the loader lock once more leads to.
pub open spec fn enter_out(is_64bit: bool, tid: u32, dll: LoaderView, m: MemView) -> LdrOut {
    if dll.lock == 0 {
        LdrOut { dll, mem: m, r: Ok(()) }
    } else {
        let depth = (dll.lock_depth + 1) as u32;
        let s = m.store_all(held_lock(is_64bit, dll.lock, depth, tid));
        LdrOut {
            dll: LoaderView { lock_depth: depth, ..dll },
            mem: s.mem,
            r: fault_result(s.fault),
        }
    }
}

/// The words of the loader lock after it was let go: free, or held once less.
pub open spec fn loosened_lock(is_64bit: bool, cs: u64, depth: u32) -> Seq<Store> {
    let p = slot(is_64bit);
    if depth == 0 {
        seq![
            s32(ga(cs, p), u32::MAX),
            s32(ga(cs, p + 4), 0),
            sptr(is_64bit, ga(cs, p + 8), 0),
        ]
    } else {
        seq![s32(ga(cs, p), (depth - 1) as u32), s32(ga(cs, p + 4), depth)]
    }
}

/// What letting the loader lock go once leads to.
pub open spec fn leave_out(is_64bit: bool, dll: LoaderView, m: MemView) -> LdrOut {
    if dll.lock == 0 || dll.lock_depth == 0 {
        LdrOut { dll, mem: m, r: Ok(()) }
    } else {
        let depth = (dll.lock_depth - 1) as u32;
        let s = m.store_all(loosened_lock(is_64bit, dll.lock, depth));
        LdrOut {
            dll: LoaderView { lock_depth: depth, ..dll },
            mem: s.mem,
            r: fault_result(s.fault),
        }
    }
}

/// Whether some bytes are a map of the default contracts.
pub open spec fn is_contract_map(b: Seq<u8>) -> bool {
    exists|order: Seq<(u32, u32)>| #[trigger]
        is_hash_order(default_set(), order) && b == namespace_bytes(default_set(), order)
}

/// What laying the map of contracts down leads to; one is enough.
pub open spec fn api_set_out(cfg: WinConfig, dll: LoaderView, m: MemView, b: Seq<u8>) -> LdrOut {
    if cfg.peb_addr == 0 || dll.api_set_map != 0 {
        LdrOut { dll, mem: m, r: Ok(()) }
    } else {
        let base = taken(dll.ldr_next, b.len() as int);
        let d = LoaderView { ldr_next: base, ..dll };
        let s = m.write(base, b);
        match s.fault {
            Some(f) => LdrOut { dll: d, mem: s.mem, r: Err(f) },
            None => {
                let t = s.mem.store(
                    sptr(
                        cfg.is_64bit,
                        ga(
                            cfg.peb_addr,
                            if cfg.is_64bit {
                                0x68
                            } else {
                                0x38
                            },
                        ),
                        base,
                    ),
                );
                LdrOut {
                    dll: LoaderView { api_set_map: base, ..d },
                    mem: t.mem,
                    r: fault_result(t.fault),
                }
            },
        }
    }
}

/// Letting the loader lock go undoes taking it.
pub proof fn lemma_leave_undoes_enter(is_64bit: bool, tid: u32, dll: LoaderView, m: MemView, n: MemView)
    requires
        dll.lock_depth < u32::MAX,
    ensures
        leave_out(is_64bit, enter_out(is_64bit, tid, dll, m).dll, n).dll == dll,
{
}

/// After a link was inserted at the tail of a list, the head leads back to it, it
/// leads on to the head, and it and the old tail lead to each other.
pub proof fn lemma_appended_links(is_64bit: bool, m: MemView, head: u64, link: u64, tail: u64)
    requires
        m.rptr(is_64bit, ga(head, slot(is_64bit))) == Ok::<u64, Fault>(tail),
        appended(is_64bit, m, head, link).fault is None,
        is_64bit || (head <= u32::MAX && link <= u32::MAX && tail <= u32::MAX),
        ({
            let p = slot(is_64bit);
            let t = seq![
                sptr(is_64bit, link, head),
                sptr(is_64bit, ga(link, p), tail),
                sptr(is_64bit, tail, link),
                sptr(is_64bit, ga(head, p), link),
            ];
            &&& forall|i: int, j: int|
                0 <= i < j < 4 ==> crate::mem::apart(#[trigger] t[i], #[trigger] t[j])
            &&& forall|i: int| 0 <= i < 4 ==> m.can_read((#[trigger] t[i]).addr as int, p)
        }),
    ensures
        ({
            let p = slot(is_64bit);
            let n = appended(is_64bit, m, head, link).mem;
            &&& n.rptr(is_64bit, link) == Ok::<u64, Fault>(head)
            &&& n.rptr(is_64bit, ga(link, p)) == Ok::<u64, Fault>(tail)
            &&& n.rptr(is_64bit, tail) == Ok::<u64, Fault>(link)
            &&& n.rptr(is_64bit, ga(head, p)) == Ok::<u64, Fault>(link)
        }),
{
    let p = slot(is_64bit);
    let t = seq![
        sptr(is_64bit, link, head),
        sptr(is_64bit, ga(link, p), tail),
        sptr(is_64bit, tail, link),
        sptr(is_64bit, ga(head, p), link),
    ];
    crate::mem::lemma_pow256();
    assert forall|i: int| 0 <= i < 4 implies (#[trigger] m.store_all(t).mem.read_le(
        t[i].addr,
        p as nat,
    )) == Ok::<nat, Fault>(t[i].value as nat) by {
        assert(t[i].size == p);
        lemma_store_all_get(m, t, i);
    }
    assert(m.store_all(t).mem.read_le(t[0].addr, p as nat) == Ok::<nat, Fault>(t[0].value as nat));
    assert(m.store_all(t).mem.read_le(t[1].addr, p as nat) == Ok::<nat, Fault>(t[1].value as nat));
    assert(m.store_all(t).mem.read_le(t[2].addr, p as nat) == Ok::<nat, Fault>(t[2].value as nat));
    assert(m.store_all(t).mem.read_le(t[3].addr, p as nat) == Ok::<nat, Fault>(t[3].value as nat));
}

impl Loader {
    /// Build the loader structures of a process.
    pub fn init_ldr(&mut self, cfg: &WinConfig, env: &Environment, mem: &mut VirtualMemory) -> (r: Result<
        (),
        Fault,
    >)
        ensures
            (LdrOut { dll: final(self)@, mem: final(mem)@, r }) == init_ldr_out(
                *cfg,
                env@,
                old(self)@,
                old(mem)@,
            ),
    {
        if cfg.peb_addr == 0 {
            return Ok(());
        }
        let ghost top = self.ldr_next;
        let a = build_heads(cfg, &mut self.ldr_next, mem);
        self.ldr_data = self.ldr_next;
        let d: u64 = self.ldr_data;
        match a {
            Ok(_) => {},
            Err(f) => {
                return Err(f);
            },
        }
        match seed_peb(cfg, env, &mut self.ldr_next, mem) {
            Ok(_) => {},
            Err(f) => {
                return Err(f);
            },
        }
        let c = build_lock(cfg, &mut self.ldr_next, mem);
        self.lock = self.ldr_next;
        match c {
            Ok(_) => {},
            Err(f) => {
                return Err(f);
            },
        }
        match thread_main(cfg, d, &mut self.ldr_next, mem) {
            Ok(_) => Ok(()),
            Err(f) => Err(f),
        }
    }

    /// Thread a loaded image onto the lists.
    pub fn ldr_add_module(&mut self, cfg: &WinConfig, mem: &mut VirtualMemory, i: usize) -> (r: Result<
        (),
        Fault,
    >)
        requires
            i < old(self).modules.len(),
        ensures
            (LdrOut { dll: final(self)@, mem: final(mem)@, r }) == add_module_out(
                *cfg,
                old(self)@,
                old(mem)@,
                i as int,
            ),
    {
        let ghost v = self@;
        if cfg.peb_addr == 0 || self.ldr_data == 0 {
            return Ok(());
        }
        let mut next: u64 = self.ldr_next;
        let m = &self.modules[i];
        assert(v.modules[i as int] == m@);
        let e = EntryData {
            base: m.base,
            size: m.size,
            entry: m.entry,
            name: m.name.as_str(),
            full: m.full_path.as_str(),
        };
        match ldr_thread_entry(cfg.is_64bit, self.ldr_data, &mut next, mem, &e) {
            Ok(te) => {
                self.ldr_next = next;
                let mut m = self.modules.remove(i);
                m.ldr_entry = te.0;
                self.modules.insert(i, m);
                assert(self@ =~= add_module_out(*cfg, v, old(mem)@, i as int).dll);
                Ok(())
            },
            Err(f) => {
                self.ldr_next = next;
                Err(f)
            },
        }
    }

    /// Take the loader lock once more.
    pub fn enter_loader_lock(&mut self, is_64bit: bool, tid: u32, mem: &mut VirtualMemory) -> (r: Result<
        (),
        Fault,
    >)
        requires
            old(self)@.lock_depth < u32::MAX,
        ensures
            (LdrOut { dll: final(self)@, mem: final(mem)@, r }) == enter_out(
                is_64bit,
                tid,
                old(self)@,
                old(mem)@,
            ),
    {
        let cs: u64 = self.lock;
        if cs == 0 {
            return Ok(());
        }
        let p: u64 = if is_64bit {
            8
        } else {
            4
        };
        let depth: u32 = self.lock_depth + 1;
        self.lock_depth = depth;
        let t: Vec<Store> = vec![
            store32(at(cs, p), depth - 1),
            store32(at(cs, p + 4), depth),
            store_ptr(is_64bit, at(cs, p + 8), tid as u64),
        ];
        assert(t@ =~= held_lock(is_64bit, cs, depth, tid));
        mem.store_all(&t)
    }

    /// Let the loader lock go once.
    pub fn leave_loader_lock(&mut self, is_64bit: bool, mem: &mut VirtualMemory) -> (r: Result<
        (),
        Fault,
    >)
        ensures
            (LdrOut { dll: final(self)@, mem: final(mem)@, r }) == leave_out(
                is_64bit,
                old(self)@,
                old(mem)@,
            ),
    {
        let cs: u64 = self.lock;
        if cs == 0 || self.lock_depth == 0 {
            return Ok(());
        }
        let p: u64 = if is_64bit {
            8
        } else {
            4
        };
        let depth: u32 = self.lock_depth - 1;
        self.lock_depth = depth;
        let t: Vec<Store> = if depth == 0 {
            vec![
                store32(at(cs, p), u32::MAX),
                store32(at(cs, p + 4), 0),
                store_ptr(is_64bit, at(cs, p + 8), 0),
            ]
        } else {
            vec![store32(at(cs, p), depth - 1), store32(at(cs, p + 4), depth)]
        };
        assert(t@ =~= loosened_lock(is_64bit, cs, depth));
        mem.store_all(&t)
    }

    /// Lay the map of contracts down and publish it.
    pub fn seed_api_set_map(&mut self, cfg: &WinConfig, mem: &mut VirtualMemory) -> (r: Result<
        (),
        Fault,
    >)
        ensures
            exists|b: Seq<u8>| #[trigger]
                is_contract_map(b) && (LdrOut { dll: final(self)@, mem: final(mem)@, r })
                    == api_set_out(*cfg, old(self)@, old(mem)@, b),
    {
        let ns = build_populated_namespace();
        let ghost b = ns.bytes@;
        assert(is_contract_map(b));
        if cfg.peb_addr == 0 || self.api_set_map != 0 {
            return Ok(());
        }
        let base: u64 = take(self.ldr_next, ns.bytes.len() as u128);
        self.ldr_next = base;
        match mem.write(base, &ns.bytes) {
            Ok(_) => {},
            Err(f) => {
                return Err(f);
            },
        }
        self.api_set_map = base;
        let off: u64 = if cfg.is_64bit {
            0x68
        } else {
            0x38
        };
        mem.store(store_ptr(cfg.is_64bit, at(cfg.peb_addr, off), base))
    }
}

/// An empty list.
fn empty_list_stores(is_64bit: bool, head: u64) -> (t: Vec<Store>)
    ensures
        t@ == empty_list(is_64bit, head),
{
    let p: u64 = if is_64bit {
        8
    } else {
        4
    };
    let t: Vec<Store> = vec![
        store_ptr(is_64bit, head, head),
        store_ptr(is_64bit, at(head, p), head),
    ];
    assert(t@ =~= empty_list(is_64bit, head));
    t
}

/// The loader data with three empty lists.
fn heads_stores(cfg: &WinConfig, d: u64) -> (t: Vec<Store>)
    ensures
        t@ == heads_table(*cfg, d),
{
    let w: bool = cfg.is_64bit;
    let size: u32 = if w {
        0x58
    } else {
        0x30
    };
    let first: u64 = if w {
        0x10
    } else {
        0x0c
    };
    let step: u64 = if w {
        0x10
    } else {
        8
    };
    let mut t: Vec<Store> = vec![store32(d, size), store32(at(d, 4), 1)];
    let mut a = empty_list_stores(w, at(d, first));
    let mut b = empty_list_stores(w, at(d, first + step));
    let mut c = empty_list_stores(w, at(d, first + step + step));
    t.append(&mut a);
    t.append(&mut b);
    t.append(&mut c);
    t.push(store_ptr(w, at(cfg.peb_addr, cfg.peb_ldr_off), d));
    assert(t@ =~= heads_table(*cfg, d));
    t
}

/// The loader lock that nobody holds, published.
fn lock_stores(cfg: &WinConfig, cs: u64) -> (t: Vec<Store>)
    ensures
        t@ == free_lock(cfg.is_64bit, cs) + (if cfg.peb_loaderlock_off != 0 {
            seq![sptr(cfg.is_64bit, ga(cfg.peb_addr, cfg.peb_loaderlock_off as int), cs)]
        } else {
            seq![]
        }),
{
    let w: bool = cfg.is_64bit;
    let p: u64 = if w {
        8
    } else {
        4
    };
    let mut t: Vec<Store> = vec![
        store_ptr(w, cs, 0),
        store32(at(cs, p), u32::MAX),
        store32(at(cs, p + 4), 0),
        store_ptr(w, at(cs, p + 8), 0),
        store_ptr(w, at(cs, p + 8 + p), 0),
        store_ptr(w, at(cs, p + 8 + 2 * p), 0),
    ];
    assert(t@ =~= free_lock(w, cs));
    if cfg.peb_loaderlock_off != 0 {
        t.push(store_ptr(w, at(cfg.peb_addr, cfg.peb_loaderlock_off), cs));
    }
    t
}

/// Lay down the loader data with its lists.
fn build_heads(cfg: &WinConfig, next: &mut u64, mem: &mut VirtualMemory) -> (r: Result<
    (u64, u64),
    Fault,
>)
    ensures
        (Laid { ldr: Ldr { next: *final(next), mem: final(mem)@ }, r }) == heads_laid(
            *cfg,
            *old(next),
            old(mem)@,
        ),
{
    proof {
        reveal(heads_laid);
    }
    let top: u64 = if *next == 0 {
        at(cfg.dll_base, cfg.dll_size)
    } else {
        *next
    };
    let size: u32 = if cfg.is_64bit {
        0x58
    } else {
        0x30
    };
    let d: u64 = take(top, size as u128);
    *next = d;
    let t = heads_stores(cfg, d);
    put(mem, Ghost(d), &t, (d, 0))
}

/// Lay down the loader lock.
fn build_lock(cfg: &WinConfig, next: &mut u64, mem: &mut VirtualMemory) -> (r: Result<
    (u64, u64),
    Fault,
>)
    ensures
        (Laid { ldr: Ldr { next: *final(next), mem: final(mem)@ }, r }) == lock_laid(
            *cfg,
            Ldr { next: *old(next), mem: old(mem)@ },
        ),
{
    proof {
        reveal(lock_laid);
    }
    let cs: u64 = take(
        *next,
        if cfg.is_64bit {
            0x28
        } else {
            0x18
        },
    );
    *next = cs;
    let t = lock_stores(cfg, cs);
    put(mem, Ghost(cs), &t, (cs, 0))
}

/// Thread the main image onto the lists of the loader data `d`.
fn thread_main(cfg: &WinConfig, d: u64, next: &mut u64, mem: &mut VirtualMemory) -> (r: Result<
    (u64, u64),
    Fault,
>)
    ensures
        (Laid { ldr: Ldr { next: *final(next), mem: final(mem)@ }, r }) == entry_threaded(
            cfg.is_64bit,
            d,
            Ldr { next: *old(next), mem: old(mem)@ },
            main_info(*cfg),
        ),
{
    let own = chars_of(cfg.image_name.as_str());
    let name: String = if own.len() == 0 {
        let p = chars_of("program.exe");
        string_of(&p)
    } else {
        string_of(&own)
    };
    let i = EntryData {
        base: cfg.image_base,
        size: cfg.image_size,
        entry: cfg.image_entry,
        name: name.as_str(),
        full: cfg.module_path_w.as_str(),
    };
    assert(i.info() == main_info(*cfg));
    ldr_thread_entry(cfg.is_64bit, d, next, mem, &i)
}

} // verus!
