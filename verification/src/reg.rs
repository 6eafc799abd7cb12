//! The registry calls of the Windows API.

use vstd::prelude::*;

use vstd::utf8::encode_utf8;

use crate::call::{answer, answer_stores, args, args_at, faulted, follow, Reply};
use crate::cpu::{CpuState, CpuView};
use crate::gstr::{guest_text, narrow_write, read_text, wide_write, write_astr, write_wstr};
use crate::hive::{char_count, data_size, largest, max_chars, RegView, Registry, ValueView};
use crate::mem::{
    opt, push_opt, s32, s64, sptr, store32, store64, store_ptr, Fault, MemView, Store,
    VirtualMemory, MAX_REGION,
};
use crate::text::{string_of, utf16};

verus! {

pub const ERROR_SUCCESS: u64 = 0;

pub const ERROR_FILE_NOT_FOUND: u64 = 2;

pub const ERROR_INVALID_HANDLE: u64 = 6;

pub const ERROR_MORE_DATA: u64 = 234;

pub const ERROR_NO_MORE_ITEMS: u64 = 259;

/// What registry calls work on: the registry, the next free handle, and the
/// last error.
#[verifier::ext_equal]
pub struct RegCtx {
    pub reg: RegView,
    pub next: u64,
    pub error: u32,
}

impl RegCtx {
    /// With another last error.
    pub open spec fn failed(self, error: u32) -> RegCtx {
        RegCtx { error, ..self }
    }

    /// With the next handle open on a key.
    pub open spec fn opened(self, path: Seq<char>) -> RegCtx {
        RegCtx {
            reg: self.reg.opened(self.next, path),
            next: (self.next + 4) as u64,
            ..self
        }
    }
}

/// What a registry call leads to.
pub struct RegOut {
    pub ctx: RegCtx,
    pub reply: Reply,
}

/// A call that left the registry alone.
pub open spec fn kept(x: RegCtx, reply: Reply) -> RegOut {
    RegOut { ctx: x, reply }
}

/// A call that failed with an error code, which is also the last error.
pub open spec fn refused(x: RegCtx, m: MemView, code: u64) -> RegOut {
    RegOut { ctx: x.failed(code as u32), reply: answer(m, code) }
}

/// `RegCreateKeyEx`: the key is there afterwards, a handle is open on it, and the
/// disposition tells whether it had an entry.
pub open spec fn create_out(x: RegCtx, is_64bit: bool, c: CpuView, m: MemView, wide: bool) -> RegOut {
    match args_at(is_64bit, c, m, seq![0, 1]) {
        Err(f) => kept(x, faulted(m, f)),
        Ok(a) => match guest_text(m, a[1], wide) {
            Err(f) => kept(x, faulted(m, f)),
            Ok(sub) => match args_at(is_64bit, c, m, seq![7, 8]) {
                Err(f) => kept(x, faulted(m, f)),
                Ok(b) => match x.reg.join(a[0], sub) {
                    None => refused(x, m, ERROR_INVALID_HANDLE),
                    Some(path) => {
                        let disposition: u32 = if x.reg.keys.contains_key(path) {
                            2
                        } else {
                            1
                        };
                        RegOut {
                            ctx: RegCtx { reg: x.reg.created(path), ..x }.opened(path),
                            reply: answer_stores(
                                m,
                                opt(sptr(is_64bit, b[0], x.next)) + opt(s32(b[1], disposition)),
                                ERROR_SUCCESS,
                            ),
                        }
                    },
                },
            },
        },
    }
}

/// `RegOpenKeyEx`: a handle on a key that exists.
#[verifier::opaque]
pub open spec fn open_out(x: RegCtx, is_64bit: bool, c: CpuView, m: MemView, wide: bool) -> RegOut {
    match args_at(is_64bit, c, m, seq![0, 1]) {
        Err(f) => kept(x, faulted(m, f)),
        Ok(a) => match guest_text(m, a[1], wide) {
            Err(f) => kept(x, faulted(m, f)),
            Ok(sub) => match args_at(is_64bit, c, m, seq![4]) {
                Err(f) => kept(x, faulted(m, f)),
                Ok(b) => match x.reg.join(a[0], sub) {
                    None => refused(x, m, ERROR_INVALID_HANDLE),
                    Some(path) => if !x.reg.has_key(path) {
                        refused(x, m, ERROR_FILE_NOT_FOUND)
                    } else {
                        RegOut {
                            ctx: x.opened(path),
                            reply: answer_stores(
                                m,
                                opt(sptr(is_64bit, b[0], x.next)),
                                ERROR_SUCCESS,
                            ),
                        }
                    },
                },
            },
        },
    }
}

/// The bytes of a value that a guest hands over. Without a buffer it is all
/// zeros, and no longer than a host buffer can be.
pub open spec fn value_bytes(m: MemView, p: u64, n: u64) -> Result<Seq<u8>, Fault> {
    if p != 0 && n > 0 {
        m.read(p, n as nat)
    } else if n <= MAX_REGION {
        Ok(Seq::new(n as nat, |i: int| 0u8))
    } else {
        Err(Fault { addr: p })
    }
}

/// The bytes of a value that a guest hands over.
pub fn read_value(mem: &VirtualMemory, p: u64, n: u64) -> (r: Result<Vec<u8>, Fault>)
    ensures
        match r {
            Ok(v) => value_bytes(mem@, p, n) == Ok::<Seq<u8>, Fault>(v@),
            Err(f) => value_bytes(mem@, p, n) == Err::<Seq<u8>, Fault>(f),
        },
{
    if p != 0 && n > 0 {
        return mem.read_block(p, n);
    }
    if n > MAX_REGION {
        return Err(Fault { addr: p });
    }
    let out: Vec<u8> = vec![0u8; n as usize];
    assert(out@ =~= Seq::new(n as nat, |j: int| 0u8));
    Ok(out)
}

/// `RegSetValueEx`.
#[verifier::opaque]
pub open spec fn set_out(x: RegCtx, is_64bit: bool, c: CpuView, m: MemView, wide: bool) -> RegOut {
    match args_at(is_64bit, c, m, seq![0, 1]) {
        Err(f) => kept(x, faulted(m, f)),
        Ok(a) => match guest_text(m, a[1], wide) {
            Err(f) => kept(x, faulted(m, f)),
            Ok(name) => match args_at(is_64bit, c, m, seq![3, 4, 5]) {
                Err(f) => kept(x, faulted(m, f)),
                Ok(b) => match x.reg.resolve(a[0]) {
                    None => refused(x, m, ERROR_INVALID_HANDLE),
                    Some(path) => match value_bytes(m, b[1], b[2]) {
                        Err(f) => kept(x, faulted(m, f)),
                        Ok(data) => RegOut {
                            ctx: RegCtx {
                                reg: x.reg.with_value(
                                    path,
                                    name,
                                    ValueView { ty: b[0] as u32, data },
                                ),
                                ..x
                            },
                            reply: answer(m, ERROR_SUCCESS),
                        },
                    },
                },
            },
        },
    }
}

/// Handing out the data of a value to a buffer whose size is counted at `count`:
/// without a count nothing, without a buffer the size alone, and to a buffer
/// that is too small the size with an error.
pub open spec fn data_reply(m: MemView, p: u64, count: u64, data: Seq<u8>) -> Reply {
    let n = data.len() as u32;
    if count == 0 {
        answer(m, ERROR_SUCCESS)
    } else if p == 0 {
        answer_stores(m, seq![s32(count, n)], ERROR_SUCCESS)
    } else {
        match m.r32(count) {
            Err(f) => faulted(m, f),
            Ok(room) => if room < n {
                answer_stores(m, seq![s32(count, n)], ERROR_MORE_DATA)
            } else {
                follow(
                    m.write(p, data),
                    |k: MemView| answer_stores(k, seq![s32(count, n)], ERROR_SUCCESS),
                )
            },
        }
    }
}

/// Hand out the data of a value.
fn write_data(mem: &mut VirtualMemory, p: u64, count: u64, data: &Vec<u8>) -> (r: Result<u64, Fault>)
    ensures
        final(mem)@ == data_reply(old(mem)@, p, count, data@).mem,
        r == data_reply(old(mem)@, p, count, data@).r,
{
    let n: u32 = data.len() as u32;
    if count == 0 {
        return Ok(ERROR_SUCCESS);
    }
    let t: Vec<Store> = vec![store32(count, n)];
    assert(t@ =~= seq![s32(count, n)]);
    if p == 0 {
        return match mem.store_all(&t) {
            Ok(_) => Ok(ERROR_SUCCESS),
            Err(f) => Err(f),
        };
    }
    let room: u32 = match mem.read_u32(count) {
        Ok(v) => v,
        Err(f) => {
            return Err(f);
        },
    };
    if room < n {
        return match mem.store_all(&t) {
            Ok(_) => Ok(ERROR_MORE_DATA),
            Err(f) => Err(f),
        };
    }
    match mem.write(p, data) {
        Ok(_) => {},
        Err(f) => {
            return Err(f);
        },
    }
    match mem.store_all(&t) {
        Ok(_) => Ok(ERROR_SUCCESS),
        Err(f) => Err(f),
    }
}

/// `RegQueryValueEx`.
#[verifier::opaque]
pub open spec fn query_out(x: RegCtx, is_64bit: bool, c: CpuView, m: MemView, wide: bool) -> RegOut {
    match args_at(is_64bit, c, m, seq![0, 1]) {
        Err(f) => kept(x, faulted(m, f)),
        Ok(a) => match guest_text(m, a[1], wide) {
            Err(f) => kept(x, faulted(m, f)),
            Ok(name) => match args_at(is_64bit, c, m, seq![3, 4, 5]) {
                Err(f) => kept(x, faulted(m, f)),
                Ok(b) => match x.reg.resolve(a[0]) {
                    None => refused(x, m, ERROR_INVALID_HANDLE),
                    Some(path) => match x.reg.value(path, name) {
                        None => refused(x, m, ERROR_FILE_NOT_FOUND),
                        Some(v) => kept(
                            x,
                            follow(
                                m.store_all(opt(s32(b[0], v.ty))),
                                |k: MemView| data_reply(k, b[1], b[2], v.data),
                            ),
                        ),
                    },
                },
            },
        },
    }
}

/// `RegCloseKey`: the handle is closed; predefined roots stay.
pub open spec fn close_out(x: RegCtx, is_64bit: bool, c: CpuView, m: MemView) -> RegOut {
    match args_at(is_64bit, c, m, seq![0]) {
        Err(f) => kept(x, faulted(m, f)),
        Ok(a) => RegOut {
            ctx: RegCtx { reg: x.reg.closed(a[0]), ..x },
            reply: answer(m, ERROR_SUCCESS),
        },
    }
}

/// `RegDeleteValue`.
#[verifier::opaque]
pub open spec fn delete_value_out(
    x: RegCtx,
    is_64bit: bool,
    c: CpuView,
    m: MemView,
    wide: bool,
) -> RegOut {
    match args_at(is_64bit, c, m, seq![0, 1]) {
        Err(f) => kept(x, faulted(m, f)),
        Ok(a) => match guest_text(m, a[1], wide) {
            Err(f) => kept(x, faulted(m, f)),
            Ok(name) => match x.reg.resolve(a[0]) {
                None => refused(x, m, ERROR_INVALID_HANDLE),
                Some(path) => if x.reg.value(path, name) is None {
                    refused(x, m, ERROR_FILE_NOT_FOUND)
                } else {
                    RegOut {
                        ctx: RegCtx { reg: x.reg.without_value(path, name), ..x },
                        reply: answer(m, ERROR_SUCCESS),
                    }
                },
            },
        },
    }
}

/// `RegDeleteKey`: the key and all below it.
#[verifier::opaque]
pub open spec fn delete_key_out(
    x: RegCtx,
    is_64bit: bool,
    c: CpuView,
    m: MemView,
    wide: bool,
) -> RegOut {
    match args_at(is_64bit, c, m, seq![0, 1]) {
        Err(f) => kept(x, faulted(m, f)),
        Ok(a) => match guest_text(m, a[1], wide) {
            Err(f) => kept(x, faulted(m, f)),
            Ok(sub) => match x.reg.join(a[0], sub) {
                None => refused(x, m, ERROR_INVALID_HANDLE),
                Some(path) => RegOut {
                    ctx: RegCtx { reg: x.reg.without_key(path), ..x },
                    reply: answer(m, ERROR_SUCCESS),
                },
            },
        },
    }
}

/// Handing out a name to a buffer whose size in characters is counted at
/// `count`; without a count it is taken to be 260.
pub open spec fn name_reply(m: MemView, p: u64, count: u64, name: Seq<char>, wide: bool) -> Reply {
    let room = if count != 0 {
        m.r32(count)
    } else {
        Ok(260)
    };
    let n = name.len() as u32;
    match room {
        Err(f) => faulted(m, f),
        Ok(cap) => if name.len() + 1 > cap {
            answer_stores(m, opt(s32(count, n)), ERROR_MORE_DATA)
        } else {
            let w = if wide {
                wide_write(m, p, utf16(name), cap as u64)
            } else {
                narrow_write(m, p, encode_utf8(name), cap as u64)
            };
            match w.r {
                Err(f) => w,
                Ok(_) => answer_stores(w.mem, opt(s32(count, n)), ERROR_SUCCESS),
            }
        },
    }
}

/// Hand out a name.
fn write_reg_name(mem: &mut VirtualMemory, p: u64, count: u64, name: &Vec<char>, wide: bool) -> (r:
    Result<u64, Fault>)
    ensures
        final(mem)@ == name_reply(old(mem)@, p, count, name@, wide).mem,
        r == name_reply(old(mem)@, p, count, name@, wide).r,
{
    let cap: u32 = if count != 0 {
        match mem.read_u32(count) {
            Ok(v) => v,
            Err(f) => {
                return Err(f);
            },
        }
    } else {
        260
    };
    let n: u32 = name.len() as u32;
    let mut t: Vec<Store> = Vec::new();
    push_opt(&mut t, store32(count, n));
    assert(t@ =~= opt(s32(count, n)));
    if name.len() as u64 >= cap as u64 {
        return match mem.store_all(&t) {
            Ok(_) => Ok(ERROR_MORE_DATA),
            Err(f) => Err(f),
        };
    }
    let text = string_of(name);
    let w = if wide {
        write_wstr(mem, p, text.as_str(), cap as u64)
    } else {
        write_astr(mem, p, text.as_str(), cap as u64)
    };
    match w {
        Ok(_) => {},
        Err(f) => {
            return Err(f);
        },
    }
    match mem.store_all(&t) {
        Ok(_) => Ok(ERROR_SUCCESS),
        Err(f) => Err(f),
    }
}

/// `RegEnumKeyEx`: the name of a key below the open one, by its place.
#[verifier::opaque]
pub open spec fn enum_key_out(
    x: RegCtx,
    is_64bit: bool,
    c: CpuView,
    m: MemView,
    wide: bool,
) -> RegOut {
    match args_at(is_64bit, c, m, seq![0, 1, 2, 3, 7]) {
        Err(f) => kept(x, faulted(m, f)),
        Ok(a) => match x.reg.resolve(a[0]) {
            None => refused(x, m, ERROR_INVALID_HANDLE),
            Some(base) => {
                let subs = x.reg.subkeys(base);
                if a[1] >= subs.len() {
                    kept(x, answer(m, ERROR_NO_MORE_ITEMS))
                } else {
                    let w = name_reply(m, a[2], a[3], subs[a[1] as int], wide);
                    match w.r {
                        Err(_) => kept(x, w),
                        Ok(v) => kept(x, answer_stores(w.mem, opt(s64(a[4], 0)), v)),
                    }
                }
            },
        },
    }
}

/// Handing out the data of an enumerated value; the count is read first.
pub open spec fn enum_data_reply(m: MemView, p: u64, count: u64, data: Seq<u8>) -> Reply {
    if count == 0 {
        answer(m, ERROR_SUCCESS)
    } else {
        match m.r32(count) {
            Err(f) => faulted(m, f),
            Ok(_) => data_reply(m, p, count, data),
        }
    }
}

/// `RegEnumValue`: the name, type and data of a value, by its place.
#[verifier::opaque]
pub open spec fn enum_value_out(
    x: RegCtx,
    is_64bit: bool,
    c: CpuView,
    m: MemView,
    wide: bool,
) -> RegOut {
    match args_at(is_64bit, c, m, seq![0, 1, 2, 3, 5, 6, 7]) {
        Err(f) => kept(x, faulted(m, f)),
        Ok(a) => match x.reg.resolve(a[0]) {
            None => refused(x, m, ERROR_INVALID_HANDLE),
            Some(path) => {
                let names = x.reg.value_names(path);
                if a[1] >= names.len() {
                    kept(x, answer(m, ERROR_NO_MORE_ITEMS))
                } else {
                    let name = names[a[1] as int];
                    let v = x.reg.values_of(path)[name];
                    let w = name_reply(m, a[2], a[3], name, wide);
                    if w.r != Ok::<u64, Fault>(ERROR_SUCCESS) {
                        kept(x, w)
                    } else {
                        kept(
                            x,
                            follow(
                                w.mem.store_all(opt(s32(a[4], v.ty))),
                                |k: MemView| enum_data_reply(k, a[5], a[6], v.data),
                            ),
                        )
                    }
                }
            },
        },
    }
}

/// The stores of `RegQueryInfoKey`: the numbers of subkeys and values and the
/// largest name and data sizes.
pub open spec fn info_table(r: RegView, path: Seq<char>, a: Seq<u64>) -> Seq<Store> {
    let subs = r.subkeys(path);
    let names = r.value_names(path);
    let vs = r.values_of(path);
    opt(s32(a[1], subs.len() as u32)) + opt(s32(a[2], largest(subs, char_count()) as u32)) + opt(
        s32(a[3], names.len() as u32),
    ) + opt(s32(a[4], largest(names, char_count()) as u32)) + opt(
        s32(a[5], largest(names, data_size(vs)) as u32),
    ) + opt(s64(a[6], 0))
}

/// `RegQueryInfoKey`.
#[verifier::opaque]
pub open spec fn query_info_out(x: RegCtx, is_64bit: bool, c: CpuView, m: MemView) -> RegOut {
    match args_at(is_64bit, c, m, seq![0, 4, 5, 7, 8, 9, 11]) {
        Err(f) => kept(x, faulted(m, f)),
        Ok(a) => match x.reg.resolve(a[0]) {
            None => refused(x, m, ERROR_INVALID_HANDLE),
            Some(path) => kept(
                x,
                answer_stores(m, info_table(x.reg, path, a), ERROR_SUCCESS),
            ),
        },
    }
}

/// The context of a registry call.
pub open spec fn reg_ctx(r: Registry, next: u64, error: u32) -> RegCtx {
    RegCtx { reg: r@, next, error }
}

/// Whether a call had the stated outcome.
pub open spec fn had_outcome(
    out: RegOut,
    r: Registry,
    next: u64,
    error: u32,
    m: MemView,
    v: Result<u64, Fault>,
) -> bool {
    reg_ctx(r, next, error) == out.ctx && m == out.reply.mem && v == out.reply.r
}

impl Registry {
    /// `RegCreateKeyEx`.
    pub fn reg_create(
        &mut self,
        next: &mut u64,
        error: &mut u32,
        is_64bit: bool,
        cpu: &CpuState,
        mem: &mut VirtualMemory,
        wide: bool,
    ) -> (r: Result<u64, Fault>)
        requires
            *old(next) <= u64::MAX - 4,
        ensures
            had_outcome(
                create_out(
                    reg_ctx(*old(self), *old(next), *old(error)),
                    is_64bit,
                    cpu@,
                    old(mem)@,
                    wide,
                ),
                *final(self),
                *final(next),
                *final(error),
                final(mem)@,
                r,
            ),
            *final(next) >= *old(next),
    {
        let list: Vec<u64> = vec![0, 1];
        assert(list@ =~= seq![0u64, 1u64]);
        let a = match args(is_64bit, cpu, mem, &list) {
            Ok(v) => v,
            Err(f) => {
                return Err(f);
            },
        };
        let sub = match read_text(mem, a[1], wide) {
            Ok(s) => s,
            Err(f) => {
                return Err(f);
            },
        };
        let list: Vec<u64> = vec![7, 8];
        assert(list@ =~= seq![7u64, 8u64]);
        let b = match args(is_64bit, cpu, mem, &list) {
            Ok(v) => v,
            Err(f) => {
                return Err(f);
            },
        };
        let path = match self.reg_join(a[0], sub.as_str()) {
            Some(p) => p,
            None => {
                *error = ERROR_INVALID_HANDLE as u32;
                return Ok(ERROR_INVALID_HANDLE);
            },
        };
        let disposition: u32 = if self.has_entry(path.as_str()) {
            2
        } else {
            1
        };
        self.create_key(path.as_str());
        let h: u64 = *next;
        *next = h + 4;
        self.open_handle(h, path);
        let mut t: Vec<Store> = Vec::new();
        push_opt(&mut t, store_ptr(is_64bit, b[0], h));
        push_opt(&mut t, store32(b[1], disposition));
        assert(t@ =~= opt(sptr(is_64bit, b[0], h)) + opt(s32(b[1], disposition)));
        match mem.store_all(&t) {
            Ok(_) => Ok(ERROR_SUCCESS),
            Err(f) => Err(f),
        }
    }

    /// `RegOpenKeyEx`.
    pub fn reg_open(
        &mut self,
        next: &mut u64,
        error: &mut u32,
        is_64bit: bool,
        cpu: &CpuState,
        mem: &mut VirtualMemory,
        wide: bool,
    ) -> (r: Result<u64, Fault>)
        requires
            *old(next) <= u64::MAX - 4,
        ensures
            had_outcome(
                open_out(
                    reg_ctx(*old(self), *old(next), *old(error)),
                    is_64bit,
                    cpu@,
                    old(mem)@,
                    wide,
                ),
                *final(self),
                *final(next),
                *final(error),
                final(mem)@,
                r,
            ),
            *final(next) >= *old(next),
    {
        proof {
            reveal(open_out);
        }
        let list: Vec<u64> = vec![0, 1];
        assert(list@ =~= seq![0u64, 1u64]);
        let a = match args(is_64bit, cpu, mem, &list) {
            Ok(v) => v,
            Err(f) => {
                return Err(f);
            },
        };
        let sub = match read_text(mem, a[1], wide) {
            Ok(s) => s,
            Err(f) => {
                return Err(f);
            },
        };
        let list: Vec<u64> = vec![4];
        assert(list@ =~= seq![4u64]);
        let b = match args(is_64bit, cpu, mem, &list) {
            Ok(v) => v,
            Err(f) => {
                return Err(f);
            },
        };
        let path = match self.reg_join(a[0], sub.as_str()) {
            Some(p) => p,
            None => {
                *error = ERROR_INVALID_HANDLE as u32;
                return Ok(ERROR_INVALID_HANDLE);
            },
        };
        if !self.reg_key_exists(path.as_str()) {
            *error = ERROR_FILE_NOT_FOUND as u32;
            return Ok(ERROR_FILE_NOT_FOUND);
        }
        let h: u64 = *next;
        *next = h + 4;
        self.open_handle(h, path);
        let mut t: Vec<Store> = Vec::new();
        push_opt(&mut t, store_ptr(is_64bit, b[0], h));
        assert(t@ =~= opt(sptr(is_64bit, b[0], h)));
        match mem.store_all(&t) {
            Ok(_) => Ok(ERROR_SUCCESS),
            Err(f) => Err(f),
        }
    }

    /// `RegSetValueEx`.
    pub fn reg_set(
        &mut self,
        next: &mut u64,
        error: &mut u32,
        is_64bit: bool,
        cpu: &CpuState,
        mem: &mut VirtualMemory,
        wide: bool,
    ) -> (r: Result<u64, Fault>)
        ensures
            had_outcome(
                set_out(
                    reg_ctx(*old(self), *old(next), *old(error)),
                    is_64bit,
                    cpu@,
                    old(mem)@,
                    wide,
                ),
                *final(self),
                *final(next),
                *final(error),
                final(mem)@,
                r,
            ),
            *final(next) >= *old(next),
    {
        proof {
            reveal(set_out);
        }
        let list: Vec<u64> = vec![0, 1];
        assert(list@ =~= seq![0u64, 1u64]);
        let a = match args(is_64bit, cpu, mem, &list) {
            Ok(v) => v,
            Err(f) => {
                return Err(f);
            },
        };
        let name = match read_text(mem, a[1], wide) {
            Ok(s) => s,
            Err(f) => {
                return Err(f);
            },
        };
        let list: Vec<u64> = vec![3, 4, 5];
        assert(list@ =~= seq![3u64, 4u64, 5u64]);
        let b = match args(is_64bit, cpu, mem, &list) {
            Ok(v) => v,
            Err(f) => {
                return Err(f);
            },
        };
        let path = match self.reg_resolve(a[0]) {
            Some(p) => p,
            None => {
                *error = ERROR_INVALID_HANDLE as u32;
                return Ok(ERROR_INVALID_HANDLE);
            },
        };
        let data = match read_value(mem, b[1], b[2]) {
            Ok(d) => d,
            Err(f) => {
                return Err(f);
            },
        };
        self.set_value(path.as_str(), name.as_str(), b[0] as u32, data);
        Ok(ERROR_SUCCESS)
    }

    /// `RegQueryValueEx`.
    pub fn reg_query(
        &mut self,
        next: &mut u64,
        error: &mut u32,
        is_64bit: bool,
        cpu: &CpuState,
        mem: &mut VirtualMemory,
        wide: bool,
    ) -> (r: Result<u64, Fault>)
        ensures
            had_outcome(
                query_out(
                    reg_ctx(*old(self), *old(next), *old(error)),
                    is_64bit,
                    cpu@,
                    old(mem)@,
                    wide,
                ),
                *final(self),
                *final(next),
                *final(error),
                final(mem)@,
                r,
            ),
            *final(next) >= *old(next),
    {
        proof {
            reveal(query_out);
        }
        let list: Vec<u64> = vec![0, 1];
        assert(list@ =~= seq![0u64, 1u64]);
        let a = match args(is_64bit, cpu, mem, &list) {
            Ok(v) => v,
            Err(f) => {
                return Err(f);
            },
        };
        let name = match read_text(mem, a[1], wide) {
            Ok(s) => s,
            Err(f) => {
                return Err(f);
            },
        };
        let list: Vec<u64> = vec![3, 4, 5];
        assert(list@ =~= seq![3u64, 4u64, 5u64]);
        let b = match args(is_64bit, cpu, mem, &list) {
            Ok(v) => v,
            Err(f) => {
                return Err(f);
            },
        };
        let path = match self.reg_resolve(a[0]) {
            Some(p) => p,
            None => {
                *error = ERROR_INVALID_HANDLE as u32;
                return Ok(ERROR_INVALID_HANDLE);
            },
        };
        let v = match self.get_value(path.as_str(), name.as_str()) {
            Some(v) => v,
            None => {
                *error = ERROR_FILE_NOT_FOUND as u32;
                return Ok(ERROR_FILE_NOT_FOUND);
            },
        };
        let mut t: Vec<Store> = Vec::new();
        push_opt(&mut t, store32(b[0], v.ty));
        assert(t@ =~= opt(s32(b[0], v.ty)));
        match mem.store_all(&t) {
            Ok(_) => {},
            Err(f) => {
                return Err(f);
            },
        }
        write_data(mem, b[1], b[2], &v.data)
    }

    /// `RegCloseKey`.
    pub fn reg_close(
        &mut self,
        next: &mut u64,
        error: &mut u32,
        is_64bit: bool,
        cpu: &CpuState,
        mem: &mut VirtualMemory,
    ) -> (r: Result<u64, Fault>)
        ensures
            had_outcome(
                close_out(
                    reg_ctx(*old(self), *old(next), *old(error)),
                    is_64bit,
                    cpu@,
                    old(mem)@,
                ),
                *final(self),
                *final(next),
                *final(error),
                final(mem)@,
                r,
            ),
            *final(next) >= *old(next),
    {
        let list: Vec<u64> = vec![0];
        assert(list@ =~= seq![0u64]);
        let a = match args(is_64bit, cpu, mem, &list) {
            Ok(v) => v,
            Err(f) => {
                return Err(f);
            },
        };
        self.close_handle(a[0]);
        Ok(ERROR_SUCCESS)
    }

    /// `RegDeleteValue`.
    pub fn reg_delete_value(
        &mut self,
        next: &mut u64,
        error: &mut u32,
        is_64bit: bool,
        cpu: &CpuState,
        mem: &mut VirtualMemory,
        wide: bool,
    ) -> (r: Result<u64, Fault>)
        ensures
            had_outcome(
                delete_value_out(
                    reg_ctx(*old(self), *old(next), *old(error)),
                    is_64bit,
                    cpu@,
                    old(mem)@,
                    wide,
                ),
                *final(self),
                *final(next),
                *final(error),
                final(mem)@,
                r,
            ),
            *final(next) >= *old(next),
    {
        proof {
            reveal(delete_value_out);
        }
        let list: Vec<u64> = vec![0, 1];
        assert(list@ =~= seq![0u64, 1u64]);
        let a = match args(is_64bit, cpu, mem, &list) {
            Ok(v) => v,
            Err(f) => {
                return Err(f);
            },
        };
        let name = match read_text(mem, a[1], wide) {
            Ok(s) => s,
            Err(f) => {
                return Err(f);
            },
        };
        let path = match self.reg_resolve(a[0]) {
            Some(p) => p,
            None => {
                *error = ERROR_INVALID_HANDLE as u32;
                return Ok(ERROR_INVALID_HANDLE);
            },
        };
        if self.delete_value(path.as_str(), name.as_str()) {
            Ok(ERROR_SUCCESS)
        } else {
            *error = ERROR_FILE_NOT_FOUND as u32;
            Ok(ERROR_FILE_NOT_FOUND)
        }
    }

    /// `RegDeleteKey`.
    pub fn reg_delete_key(
        &mut self,
        next: &mut u64,
        error: &mut u32,
        is_64bit: bool,
        cpu: &CpuState,
        mem: &mut VirtualMemory,
        wide: bool,
    ) -> (r: Result<u64, Fault>)
        ensures
            had_outcome(
                delete_key_out(
                    reg_ctx(*old(self), *old(next), *old(error)),
                    is_64bit,
                    cpu@,
                    old(mem)@,
                    wide,
                ),
                *final(self),
                *final(next),
                *final(error),
                final(mem)@,
                r,
            ),
            *final(next) >= *old(next),
    {
        proof {
            reveal(delete_key_out);
        }
        let list: Vec<u64> = vec![0, 1];
        assert(list@ =~= seq![0u64, 1u64]);
        let a = match args(is_64bit, cpu, mem, &list) {
            Ok(v) => v,
            Err(f) => {
                return Err(f);
            },
        };
        let sub = match read_text(mem, a[1], wide) {
            Ok(s) => s,
            Err(f) => {
                return Err(f);
            },
        };
        let path = match self.reg_join(a[0], sub.as_str()) {
            Some(p) => p,
            None => {
                *error = ERROR_INVALID_HANDLE as u32;
                return Ok(ERROR_INVALID_HANDLE);
            },
        };
        self.delete_tree(path.as_str());
        Ok(ERROR_SUCCESS)
    }

    /// `RegEnumKeyEx`.
    pub fn reg_enum_key(
        &mut self,
        next: &mut u64,
        error: &mut u32,
        is_64bit: bool,
        cpu: &CpuState,
        mem: &mut VirtualMemory,
        wide: bool,
    ) -> (r: Result<u64, Fault>)
        ensures
            had_outcome(
                enum_key_out(
                    reg_ctx(*old(self), *old(next), *old(error)),
                    is_64bit,
                    cpu@,
                    old(mem)@,
                    wide,
                ),
                *final(self),
                *final(next),
                *final(error),
                final(mem)@,
                r,
            ),
            *final(next) >= *old(next),
    {
        proof {
            reveal(enum_key_out);
        }
        let list: Vec<u64> = vec![0, 1, 2, 3, 7];
        assert(list@ =~= seq![0u64, 1u64, 2u64, 3u64, 7u64]);
        let a = match args(is_64bit, cpu, mem, &list) {
            Ok(v) => v,
            Err(f) => {
                return Err(f);
            },
        };
        let path = match self.reg_resolve(a[0]) {
            Some(p) => p,
            None => {
                *error = ERROR_INVALID_HANDLE as u32;
                return Ok(ERROR_INVALID_HANDLE);
            },
        };
        let subs = self.subkeys(path.as_str());
        if a[1] >= subs.len() as u64 {
            return Ok(ERROR_NO_MORE_ITEMS);
        }
        let v: u64 = match write_reg_name(mem, a[2], a[3], &subs[a[1] as usize], wide) {
            Ok(v) => v,
            Err(f) => {
                return Err(f);
            },
        };
        let mut t: Vec<Store> = Vec::new();
        push_opt(&mut t, store64(a[4], 0));
        assert(t@ =~= opt(s64(a[4], 0)));
        match mem.store_all(&t) {
            Ok(_) => Ok(v),
            Err(f) => Err(f),
        }
    }

    /// `RegEnumValue`.
    pub fn reg_enum_value(
        &mut self,
        next: &mut u64,
        error: &mut u32,
        is_64bit: bool,
        cpu: &CpuState,
        mem: &mut VirtualMemory,
        wide: bool,
    ) -> (r: Result<u64, Fault>)
        ensures
            had_outcome(
                enum_value_out(
                    reg_ctx(*old(self), *old(next), *old(error)),
                    is_64bit,
                    cpu@,
                    old(mem)@,
                    wide,
                ),
                *final(self),
                *final(next),
                *final(error),
                final(mem)@,
                r,
            ),
            *final(next) >= *old(next),
    {
        proof {
            reveal(enum_value_out);
        }
        let list: Vec<u64> = vec![0, 1, 2, 3, 5, 6, 7];
        assert(list@ =~= seq![0u64, 1u64, 2u64, 3u64, 5u64, 6u64, 7u64]);
        let a = match args(is_64bit, cpu, mem, &list) {
            Ok(v) => v,
            Err(f) => {
                return Err(f);
            },
        };
        let path = match self.reg_resolve(a[0]) {
            Some(p) => p,
            None => {
                *error = ERROR_INVALID_HANDLE as u32;
                return Ok(ERROR_INVALID_HANDLE);
            },
        };
        let names = self.value_names(path.as_str());
        if a[1] >= names.len() as u64 {
            return Ok(ERROR_NO_MORE_ITEMS);
        }
        let name = &names[a[1] as usize];
        proof {
            let s = crate::names::name_views(names@);
            assert(s.contains(s[a@[1] as int]));
        }
        let v: u64 = match write_reg_name(mem, a[2], a[3], name, wide) {
            Ok(v) => v,
            Err(f) => {
                return Err(f);
            },
        };
        if v != ERROR_SUCCESS {
            return Ok(v);
        }
        let text = string_of(name);
        match self.get_value(path.as_str(), text.as_str()) {
            Some(value) => {
                let mut t: Vec<Store> = Vec::new();
                push_opt(&mut t, store32(a[4], value.ty));
                assert(t@ =~= opt(s32(a[4], value.ty)));
                match mem.store_all(&t) {
                    Ok(_) => {},
                    Err(f) => {
                        return Err(f);
                    },
                }
                if a[6] != 0 {
                    match mem.read_u32(a[6]) {
                        Ok(_) => {},
                        Err(f) => {
                            return Err(f);
                        },
                    }
                }
                write_data(mem, a[5], a[6], &value.data)
            },
            None => Ok(ERROR_SUCCESS),
        }
    }

    /// `RegQueryInfoKey`.
    pub fn reg_query_info(
        &mut self,
        next: &mut u64,
        error: &mut u32,
        is_64bit: bool,
        cpu: &CpuState,
        mem: &mut VirtualMemory,
    ) -> (r: Result<u64, Fault>)
        ensures
            had_outcome(
                query_info_out(
                    reg_ctx(*old(self), *old(next), *old(error)),
                    is_64bit,
                    cpu@,
                    old(mem)@,
                ),
                *final(self),
                *final(next),
                *final(error),
                final(mem)@,
                r,
            ),
            *final(next) >= *old(next),
    {
        proof {
            reveal(query_info_out);
        }
        let list: Vec<u64> = vec![0, 4, 5, 7, 8, 9, 11];
        assert(list@ =~= seq![0u64, 4u64, 5u64, 7u64, 8u64, 9u64, 11u64]);
        let a = match args(is_64bit, cpu, mem, &list) {
            Ok(v) => v,
            Err(f) => {
                return Err(f);
            },
        };
        let path = match self.reg_resolve(a[0]) {
            Some(p) => p,
            None => {
                *error = ERROR_INVALID_HANDLE as u32;
                return Ok(ERROR_INVALID_HANDLE);
            },
        };
        let subs = self.subkeys(path.as_str());
        let names = self.value_names(path.as_str());
        let mut t: Vec<Store> = Vec::new();
        push_opt(&mut t, store32(a[1], subs.len() as u32));
        push_opt(&mut t, store32(a[2], max_chars(&subs) as u32));
        push_opt(&mut t, store32(a[3], names.len() as u32));
        push_opt(&mut t, store32(a[4], max_chars(&names) as u32));
        push_opt(&mut t, store32(a[5], self.max_data(path.as_str(), &names) as u32));
        push_opt(&mut t, store64(a[6], 0));
        assert(t@ =~= info_table(self@, path@, a@));
        match mem.store_all(&t) {
            Ok(_) => Ok(ERROR_SUCCESS),
            Err(f) => Err(f),
        }
    }
}

} // verus!
