//! The registry system calls.

use vstd::prelude::*;

use crate::call::{answer, answer_after, answer_stores, faulted, follow, sysargs, sysargs_at, Reply};
use crate::cpu::{CpuState, CpuView};
use crate::gstr::{bounded_unit_stores, counted_text, read_unicode_string, unit_room, unit_table};
use crate::hive::{
    data_size, first_part, is_separator, join_key, key_join, largest, lemma_set_then_get, max_units,
    unit_count, RegView, Registry, ValueView,
};
use crate::mem::{
    apart, at, ga, lemma_pow256, lemma_put_get, lemma_put_other, lemma_put_shape, lemma_read_end,
    lemma_store_all_get, lemma_store_all_join, lemma_store_all_shape, opt, push_opt, s32, s64, sptr,
    store32, store64, store_ptr, Fault, MemView, Store, VirtualMemory,
};
use crate::reg::{had_outcome, kept, read_value, reg_ctx, value_bytes, RegCtx, RegOut};
use crate::text::{
    chars_of, clone_chars, encode_utf16, eq_ignore_case, same_ignoring_case, string_of, sub_chars,
    utf16,
};
use crate::util::{first_index, lemma_first_index_is, lemma_first_index_none};

verus! {

pub const STATUS_SUCCESS: u64 = 0;

pub const STATUS_BUFFER_OVERFLOW: u64 = 0x8000_0005;

pub const STATUS_NO_MORE_ENTRIES: u64 = 0x8000_001A;

pub const STATUS_INVALID_HANDLE: u64 = 0xC000_0008;

pub const STATUS_INVALID_PARAMETER: u64 = 0xC000_000D;

pub const STATUS_BUFFER_TOO_SMALL: u64 = 0xC000_0023;

pub const STATUS_OBJECT_NAME_NOT_FOUND: u64 = 0xC000_0034;

// ---- paths ------------------------------------------------------------------

/// A text without the separators it starts with.
pub open spec fn trimmed(s: Seq<char>) -> Seq<char>
    decreases s.len(),
{
    if s.len() > 0 && s[0] == '\\' {
        trimmed(s.drop_first())
    } else {
        s
    }
}

/// What follows the first separator of a text.
pub open spec fn after_part(s: Seq<char>) -> Option<Seq<char>> {
    match first_index(s, is_separator()) {
        Some(i) => Some(s.skip(i + 1)),
        None => None,
    }
}

/// The hive path of an absolute registry path: `\Registry\Machine\..` leads to
/// `HKLM\..`, `\Registry\User\..` to `HKU\..`, whatever the case; no other path
/// leads anywhere.
pub open spec fn hive_path(nt: Seq<char>) -> Option<Seq<char>> {
    let t = trimmed(nt);
    if !same_ignoring_case(first_part(t), "Registry"@) {
        None
    } else {
        match after_part(t) {
            None => None,
            Some(u) => {
                let rest = match after_part(u) {
                    Some(r) => r,
                    None => Seq::empty(),
                };
                if same_ignoring_case(first_part(u), "Machine"@) {
                    Some(key_join("HKLM"@, rest))
                } else if same_ignoring_case(first_part(u), "User"@) {
                    Some(key_join("HKU"@, rest))
                } else {
                    None
                }
            },
        }
    }
}

/// A text without the separators it starts with.
fn trim(s: &Vec<char>) -> (r: Vec<char>)
    ensures
        r@ == trimmed(s@),
{
    let mut i: usize = 0;
    assert(s@.skip(0) =~= s@);
    while i < s.len() && s[i] == '\\'
        invariant
            i <= s.len(),
            trimmed(s@.skip(i as int)) == trimmed(s@),
        decreases s.len() - i,
    {
        assert(s@.skip(i as int).drop_first() =~= s@.skip(i + 1));
        i = i + 1;
    }
    assert(s@.subrange(i as int, s.len() as int) =~= s@.skip(i as int));
    sub_chars(s, i, s.len())
}

/// The place of the first separator.
fn find_separator(s: &Vec<char>) -> (r: Option<usize>)
    ensures
        match r {
            Some(i) => i < s.len() && first_index(s@, is_separator()) == Some(i as int),
            None => first_index(s@, is_separator()) is None,
        },
{
    let mut i: usize = 0;
    while i < s.len()
        invariant
            i <= s.len(),
            forall|j: int| 0 <= j < i ==> !is_separator()(#[trigger] s@[j]),
        decreases s.len() - i,
    {
        if s[i] == '\\' {
            proof {
                lemma_first_index_is(s@, is_separator(), i as int);
            }
            return Some(i);
        }
        i = i + 1;
    }
    proof {
        lemma_first_index_none(s@, is_separator());
    }
    None
}

/// A text split at its first separator.
fn split_first(s: &Vec<char>) -> (r: (Vec<char>, Option<Vec<char>>))
    ensures
        r.0@ == first_part(s@),
        match r.1 {
            Some(t) => after_part(s@) == Some(t@),
            None => after_part(s@) is None,
        },
{
    match find_separator(s) {
        Some(i) => {
            assert(s@.subrange(0, i as int) =~= s@.take(i as int));
            assert(s@.subrange(i + 1, s.len() as int) =~= s@.skip(i + 1));
            (sub_chars(s, 0, i), Some(sub_chars(s, i + 1, s.len())))
        },
        None => (clone_chars(s), None),
    }
}

/// The hive path of an absolute registry path.
pub fn map_nt_registry_root(nt: &str) -> (r: Option<String>)
    ensures
        match r {
            Some(s) => hive_path(nt@) == Some(s@),
            None => hive_path(nt@) is None,
        },
{
    let all = chars_of(nt);
    let t = trim(&all);
    let (head, tail) = split_first(&t);
    let head = string_of(&head);
    if !eq_ignore_case(head.as_str(), "Registry") {
        return None;
    }
    match tail {
        None => None,
        Some(u) => {
            let (hive, rest) = split_first(&u);
            let hive = string_of(&hive);
            let rest = match rest {
                Some(r) => r,
                None => {
                    let r: Vec<char> = Vec::new();
                    assert(r@ =~= Seq::<char>::empty());
                    r
                },
            };
            if eq_ignore_case(hive.as_str(), "Machine") {
                Some(join_key("HKLM", &rest))
            } else if eq_ignore_case(hive.as_str(), "User") {
                Some(join_key("HKU", &rest))
            } else {
                None
            }
        },
    }
}

/// What follows the last separator of a text.
pub open spec fn last_part(s: Seq<char>) -> Seq<char>
    decreases s.len(),
{
    if s.len() == 0 || s.last() == '\\' {
        Seq::empty()
    } else {
        last_part(s.drop_last()).push(s.last())
    }
}

/// The last component of a key path.
pub fn reg_leaf(path: &str) -> (r: Vec<char>)
    ensures
        r@ == last_part(path@),
{
    let s = chars_of(path);
    let mut i: usize = s.len();
    assert(s@.take(i as int) =~= s@);
    assert(s@.skip(i as int) =~= Seq::empty());
    assert(last_part(s@) + Seq::<char>::empty() =~= last_part(s@));
    while i > 0 && s[i - 1] != '\\'
        invariant
            i <= s.len(),
            last_part(s@) == last_part(s@.take(i as int)) + s@.skip(i as int),
        decreases i,
    {
        proof {
            let t = s@.take(i as int);
            assert(t.drop_last() =~= s@.take(i - 1));
            assert(last_part(t) == last_part(s@.take(i - 1)).push(s@[i - 1]));
            assert(last_part(s@.take(i - 1)).push(s@[i - 1]) + s@.skip(i as int) =~= last_part(
                s@.take(i - 1),
            ) + s@.skip(i - 1));
        }
        i = i - 1;
    }
    proof {
        let t = s@.take(i as int);
        if i > 0 {
            assert(t.last() == '\\');
        }
        assert(last_part(s@) =~= s@.skip(i as int));
        assert(s@.subrange(i as int, s.len() as int) =~= s@.skip(i as int));
    }
    sub_chars(&s, i, s.len())
}

/// The text of a counted string, or none.
pub open spec fn text_or_empty(m: MemView, p: u64) -> Seq<char> {
    match counted_text(m, p) {
        Some(s) => s,
        None => Seq::empty(),
    }
}

/// The text of a counted string, or none.
pub fn read_text_or_empty(mem: &VirtualMemory, p: u64) -> (s: String)
    ensures
        s@ == text_or_empty(mem@, p),
{
    match read_unicode_string(mem, p) {
        Some(s) => s,
        None => {
            let s = String::new();
            assert(s@ =~= Seq::<char>::empty());
            s
        },
    }
}

/// The key that object attributes name: below the key of their root handle, or
/// by an absolute path.
pub open spec fn attr_path(r: RegView, m: MemView, attr: u64) -> Option<Seq<char>> {
    if attr == 0 {
        None
    } else {
        match (m.r64(ga(attr, 8)), m.r64(ga(attr, 0x10))) {
            (Ok(root), Ok(name)) => {
                let text = text_or_empty(m, name);
                if root != 0 {
                    r.join(root, trimmed(text))
                } else {
                    hive_path(text)
                }
            },
            _ => None,
        }
    }
}

impl Registry {
    /// The key that object attributes name.
    pub fn nt_reg_resolve(&self, mem: &VirtualMemory, attr: u64) -> (r: Option<String>)
        ensures
            match r {
                Some(s) => attr_path(self@, mem@, attr) == Some(s@),
                None => attr_path(self@, mem@, attr) is None,
            },
    {
        if attr == 0 {
            return None;
        }
        let root: u64 = match mem.read_u64(at(attr, 8)) {
            Ok(v) => v,
            Err(_) => {
                return None;
            },
        };
        let name: u64 = match mem.read_u64(at(attr, 0x10)) {
            Ok(v) => v,
            Err(_) => {
                return None;
            },
        };
        let text = read_text_or_empty(mem, name);
        if root != 0 {
            let cs = chars_of(text.as_str());
            let sub = string_of(&trim(&cs));
            self.reg_join(root, sub.as_str())
        } else {
            map_nt_registry_root(text.as_str())
        }
    }
}

// ---- outcomes ---------------------------------------------------------------

/// `NtCreateKey`: the key is there afterwards, a handle is open on it, and the
/// disposition tells whether it existed.
pub open spec fn nt_create_out(x: RegCtx, is_64bit: bool, rsp: u64, c: CpuView, m: MemView) -> RegOut {
    match sysargs_at(rsp, c, m, seq![0, 2, 6]) {
        Err(f) => kept(x, faulted(m, f)),
        Ok(a) => if a[0] == 0 {
            kept(x, answer(m, STATUS_INVALID_PARAMETER))
        } else {
            match attr_path(x.reg, m, a[1]) {
                None => kept(x, answer(m, STATUS_INVALID_PARAMETER)),
                Some(path) => {
                    let disposition: u32 = if x.reg.has_key(path) {
                        2
                    } else {
                        1
                    };
                    RegOut {
                        ctx: RegCtx { reg: x.reg.created(path), ..x }.opened(path),
                        reply: answer_stores(
                            m,
                            seq![sptr(is_64bit, a[0], x.next)] + opt(s32(a[2], disposition)),
                            STATUS_SUCCESS,
                        ),
                    }
                },
            }
        },
    }
}

/// `NtOpenKey`: a handle on a key that exists.
pub open spec fn nt_open_out(x: RegCtx, is_64bit: bool, rsp: u64, c: CpuView, m: MemView) -> RegOut {
    match sysargs_at(rsp, c, m, seq![0, 2]) {
        Err(f) => kept(x, faulted(m, f)),
        Ok(a) => if a[0] == 0 {
            kept(x, answer(m, STATUS_INVALID_PARAMETER))
        } else {
            match attr_path(x.reg, m, a[1]) {
                None => kept(x, answer(m, STATUS_INVALID_PARAMETER)),
                Some(path) => if !x.reg.has_key(path) {
                    kept(x, answer(m, STATUS_OBJECT_NAME_NOT_FOUND))
                } else {
                    RegOut {
                        ctx: x.opened(path),
                        reply: answer_stores(m, seq![sptr(is_64bit, a[0], x.next)], STATUS_SUCCESS),
                    }
                },
            }
        },
    }
}

/// `NtSetValueKey`.
pub open spec fn nt_set_out(x: RegCtx, rsp: u64, c: CpuView, m: MemView) -> RegOut {
    match sysargs_at(rsp, c, m, seq![0, 1, 3, 4, 5]) {
        Err(f) => kept(x, faulted(m, f)),
        Ok(a) => match x.reg.resolve(a[0]) {
            None => kept(x, answer(m, STATUS_INVALID_HANDLE)),
            Some(path) => match value_bytes(m, a[3], a[4]) {
                Err(f) => kept(x, faulted(m, f)),
                Ok(data) => RegOut {
                    ctx: RegCtx {
                        reg: x.reg.with_value(
                            path,
                            text_or_empty(m, a[1]),
                            ValueView { ty: a[2] as u32, data },
                        ),
                        ..x
                    },
                    reply: answer(m, STATUS_SUCCESS),
                },
            },
        },
    }
}

/// The size of a text in bytes, as the information records count it.
pub open spec fn text_bytes(s: Seq<char>) -> u32 {
    (2 * utf16(s).len()) as u32
}

/// Whether a record of `total` bytes went into a buffer of `length`.
pub open spec fn fit_status(length: u64, total: u32) -> u64 {
    if (length as u32) < total {
        STATUS_BUFFER_OVERFLOW
    } else {
        STATUS_SUCCESS
    }
}

/// The stores of a text at `a`, as far as `room` bytes go.
pub open spec fn text_table(a: u64, s: Seq<char>, room: u64) -> Seq<Store> {
    unit_table(a, utf16(s).take(unit_room(utf16(s).len(), room) as int))
}

/// The stores of a text at `a`, as far as `room` bytes go.
fn text_stores(a: u64, s: &str, room: u64) -> (t: Vec<Store>)
    ensures
        t@ == text_table(a, s@, room),
{
    let u = encode_utf16(s);
    bounded_unit_stores(a, &u, room)
}

/// The first `room` bytes of some data.
pub open spec fn head(d: Seq<u8>, room: int) -> Seq<u8> {
    if room < d.len() {
        d.take(room)
    } else {
        d
    }
}

/// The first `room` bytes of some data.
fn head_of(d: &Vec<u8>, room: u64) -> (r: Vec<u8>)
    ensures
        r@ == head(d@, room as int),
{
    let n: usize = if room < d.len() as u64 {
        room as usize
    } else {
        d.len()
    };
    let mut r: Vec<u8> = Vec::new();
    let mut i: usize = 0;
    while i < n
        invariant
            i <= n <= d.len(),
            r@ == d@.take(i as int),
        decreases n - i,
    {
        r.push(d[i]);
        i = i + 1;
        assert(r@ =~= d@.take(i as int));
    }
    assert(d@.take(d.len() as int) =~= d@);
    r
}

/// The fixed part of a value record, by class.
pub open spec fn value_header(class: u64) -> u32 {
    if class == 1 {
        20
    } else {
        12
    }
}

/// The size of a whole value record, by class: with the name, with both, or with
/// the data alone.
pub open spec fn value_total(class: u64, name: Seq<char>, v: ValueView) -> u32 {
    let nb = text_bytes(name);
    let dl = v.data.len() as u32;
    if class == 0 {
        (12 + nb) as u32
    } else if class == 1 {
        (20 + nb + dl) as u32
    } else {
        (12 + dl) as u32
    }
}

/// The record of a value in a buffer of `length` bytes, by class.
pub open spec fn value_record(
    m: MemView,
    class: u64,
    buf: u64,
    length: u64,
    name: Seq<char>,
    v: ValueView,
) -> Reply {
    let nb = text_bytes(name);
    let dl = v.data.len() as u32;
    let status = fit_status(length, value_total(class, name, v));
    if class == 0 {
        answer_stores(
            m,
            seq![s32(buf, 0), s32(ga(buf, 4), v.ty), s32(ga(buf, 8), nb)] + text_table(
                ga(buf, 12),
                name,
                (length - 12) as u64,
            ),
            status,
        )
    } else if class == 1 {
        let t = seq![
            s32(buf, 0),
            s32(ga(buf, 4), v.ty),
            s32(ga(buf, 8), (20 + nb) as u32),
            s32(ga(buf, 12), dl),
            s32(ga(buf, 16), nb),
        ] + text_table(ga(buf, 20), name, (length - 20) as u64);
        let from = 20 + nb;
        follow(
            m.store_all(t),
            |k: MemView|
                if length > from {
                    answer_after(k.write(ga(buf, from), head(v.data, length - from)), status)
                } else {
                    answer(k, status)
                },
        )
    } else {
        follow(
            m.store_all(seq![s32(buf, 0), s32(ga(buf, 4), v.ty), s32(ga(buf, 8), dl)]),
            |k: MemView| answer_after(k.write(ga(buf, 12), head(v.data, length - 12)), status),
        )
    }
}

/// `NtQueryValueKey`: a value as a record of the asked class. The size of the
/// whole record is always told.
pub open spec fn nt_query_value_reply(r: RegView, rsp: u64, c: CpuView, m: MemView) -> Reply {
    match sysargs_at(rsp, c, m, seq![0, 1, 2, 3, 4, 5]) {
        Err(f) => faulted(m, f),
        Ok(a) => match r.resolve(a[0]) {
            None => answer(m, STATUS_INVALID_HANDLE),
            Some(path) => {
                let name = text_or_empty(m, a[1]);
                match r.value(path, name) {
                    None => answer(m, STATUS_OBJECT_NAME_NOT_FOUND),
                    Some(v) => if a[2] > 2 {
                        answer(m, STATUS_INVALID_PARAMETER)
                    } else {
                        follow(
                            m.store_all(opt(s32(a[5], value_total(a[2], name, v)))),
                            |k: MemView|
                                if (a[4] as u32) < value_header(a[2]) {
                                    answer(k, STATUS_BUFFER_TOO_SMALL)
                                } else {
                                    value_record(k, a[2], a[3], a[4], name, v)
                                },
                        )
                    },
                }
            },
        },
    }
}

/// Where the name of a key record starts, by class.
pub open spec fn name_offset(class: u64) -> u64 {
    if class == 0 {
        16
    } else {
        24
    }
}

/// The record of a key's name, by class: its write time, its length, and the
/// name as far as the buffer goes. The size of the whole record is always told.
pub open spec fn key_record(
    m: MemView,
    class: u64,
    buf: u64,
    length: u64,
    told: u64,
    name: Seq<char>,
    now: u64,
) -> Reply {
    let nb = text_bytes(name);
    let off = name_offset(class);
    let total = (off + nb) as u32;
    let fixed = if class == 0 {
        seq![s64(buf, now), s32(ga(buf, 8), 0), s32(ga(buf, 12), nb)]
    } else {
        seq![
            s64(buf, now),
            s32(ga(buf, 8), 0),
            s32(ga(buf, 12), 0),
            s32(ga(buf, 16), 0),
            s32(ga(buf, 20), nb),
        ]
    };
    let status = if length < total {
        STATUS_BUFFER_OVERFLOW
    } else {
        STATUS_SUCCESS
    };
    follow(
        m.store_all(opt(s32(told, total))),
        |k: MemView|
            if length < off {
                answer(k, STATUS_BUFFER_TOO_SMALL)
            } else {
                answer_stores(
                    k,
                    fixed + text_table(ga(buf, off as int), name, (length - off) as u64),
                    status,
                )
            },
    )
}

/// `NtEnumerateKey`: the record of a key below the open one, by its place.
pub open spec fn nt_enumerate_reply(
    r: RegView,
    now: u64,
    rsp: u64,
    c: CpuView,
    m: MemView,
) -> Reply {
    match sysargs_at(rsp, c, m, seq![0, 1, 2, 3, 4, 5]) {
        Err(f) => faulted(m, f),
        Ok(a) => match r.resolve(a[0]) {
            None => answer(m, STATUS_INVALID_HANDLE),
            Some(base) => {
                let subs = r.subkeys(base);
                if a[1] >= subs.len() {
                    answer(m, STATUS_NO_MORE_ENTRIES)
                } else if a[2] > 1 {
                    answer(m, STATUS_INVALID_PARAMETER)
                } else {
                    key_record(m, a[2], a[3], a[4], a[5], subs[a[1] as int], now)
                }
            },
        },
    }
}

/// The record of a key as a whole: how many keys and values it has, and their
/// largest sizes.
pub open spec fn full_table(r: RegView, path: Seq<char>, buf: u64, now: u64) -> Seq<Store> {
    let subs = r.subkeys(path);
    let names = r.value_names(path);
    let vs = r.values_of(path);
    seq![
        s64(buf, now),
        s32(ga(buf, 8), 0),
        s32(ga(buf, 12), 44),
        s32(ga(buf, 16), 0),
        s32(ga(buf, 20), subs.len() as u32),
        s32(ga(buf, 24), (2 * largest(subs, unit_count())) as u32),
        s32(ga(buf, 28), 0),
        s32(ga(buf, 32), names.len() as u32),
        s32(ga(buf, 36), (2 * largest(names, unit_count())) as u32),
        s32(ga(buf, 40), largest(names, data_size(vs)) as u32),
    ]
}

/// `NtQueryKey`: a record of the open key, by class.
pub open spec fn nt_query_key_reply(
    r: RegView,
    now: u64,
    rsp: u64,
    c: CpuView,
    m: MemView,
) -> Reply {
    match sysargs_at(rsp, c, m, seq![0, 1, 2, 3, 4]) {
        Err(f) => faulted(m, f),
        Ok(a) => match r.resolve(a[0]) {
            None => answer(m, STATUS_INVALID_HANDLE),
            Some(path) => if a[1] <= 1 {
                key_record(m, a[1], a[2], a[3], a[4], last_part(path), now)
            } else if a[1] == 2 {
                follow(
                    m.store_all(opt(s32(a[4], 44))),
                    |k: MemView|
                        if a[3] < 44 {
                            answer(k, STATUS_BUFFER_TOO_SMALL)
                        } else {
                            answer_stores(k, full_table(r, path, a[2], now), STATUS_SUCCESS)
                        },
                )
            } else if a[1] == 3 {
                let nb = text_bytes(path);
                let total = (4 + nb) as u32;
                follow(
                    m.store_all(opt(s32(a[4], total))),
                    |k: MemView|
                        if a[3] < 4 {
                            answer(k, STATUS_BUFFER_TOO_SMALL)
                        } else {
                            answer_stores(
                                k,
                                seq![s32(a[2], nb)] + text_table(
                                    ga(a[2], 4),
                                    path,
                                    (a[3] - 4) as u64,
                                ),
                                if a[3] < total {
                                    STATUS_BUFFER_OVERFLOW
                                } else {
                                    STATUS_SUCCESS
                                },
                            )
                        },
                )
            } else {
                answer(m, STATUS_INVALID_PARAMETER)
            },
        },
    }
}

/// A value that a guest handed over has as many bytes as it said.
proof fn lemma_value_len(m: MemView, p: u64, n: u64)
    requires
        m.wf(),
        value_bytes(m, p, n) is Ok,
    ensures
        value_bytes(m, p, n)->Ok_0.len() == n,
{
    if p != 0 && n > 0 {
        crate::mem::lemma_find_region(m.regions, p as int);
    }
}

/// Whether the cell at `told` and what a record with `n` bytes of data at `buf` holds can be
/// read, and do not meet.
pub open spec fn record_readable(m: MemView, told: u64, buf: u64, n: nat) -> bool {
    &&& m.can_read(told as int, 4)
    &&& m.can_read(buf as int, 4)
    &&& m.can_read(buf + 4, 4)
    &&& m.can_read(buf + 8, 4)
    &&& m.can_read(buf + 12, n as int)
    &&& told + 4 <= buf || buf + 12 + n <= told
}

/// Words stored at `told` and at the start of a buffer, and bytes behind them, are read
/// back.
proof fn lemma_words_read_back(
    m: MemView,
    told: u64,
    total: u32,
    buf: u64,
    ty: u32,
    dl: u32,
    d: Seq<u8>,
)
    requires
        m.wf(),
        record_readable(m, told, buf, d.len()),
        ({
            let x = m.store_all(seq![s32(told, total)]);
            let y = x.mem.store_all(seq![s32(buf, 0), s32(ga(buf, 4), ty), s32(ga(buf, 8), dl)]);
            x.fault is None && y.fault is None && y.mem.write(ga(buf, 12), d).fault is None
        }),
    ensures
        ({
            let x = m.store_all(seq![s32(told, total)]);
            let y = x.mem.store_all(seq![s32(buf, 0), s32(ga(buf, 4), ty), s32(ga(buf, 8), dl)]);
            let z = y.mem.write(ga(buf, 12), d);
            &&& buf + 12 <= u64::MAX
            &&& z.mem.r32(told) == Ok::<u32, Fault>(total)
            &&& z.mem.r32(buf) == Ok::<u32, Fault>(0)
            &&& z.mem.r32((buf + 4) as u64) == Ok::<u32, Fault>(ty)
            &&& z.mem.r32((buf + 8) as u64) == Ok::<u32, Fault>(dl)
            &&& z.mem.read((buf + 12) as u64, d.len()) == Ok::<Seq<u8>, Fault>(d)
        }),
{
    let t = seq![s32(told, total)];
    let u = seq![s32(buf, 0), s32(ga(buf, 4), ty), s32(ga(buf, 8), dl)];
    let w = t + u;
    lemma_read_end(m, buf as int, 4);
    lemma_read_end(m, buf + 4, 4);
    lemma_read_end(m, buf + 8, 4);
    let from = ga(buf, 12);
    assert(from == buf + 12);
    lemma_pow256();
    lemma_store_all_join(m, t, u);
    lemma_store_all_shape(m, w);
    let k = m.store_all(w).mem;
    let z = k.put(from as int, d);
    assert(k.can_write(from as int, d.len() as int));
    assert(m.can_write(from as int, d.len() as int));
    lemma_put_shape(k, from as int, d);
    lemma_put_get(k, from as int, d);
    lemma_word_kept(m, w, from, d, 0);
    lemma_word_kept(m, w, from, d, 1);
    lemma_word_kept(m, w, from, d, 2);
    lemma_word_kept(m, w, from, d, 3);
    assert(k.can_read(from as int, d.len() as int));
    assert(z.can_read(from as int, d.len() as int));
}

/// A word of a table is read back once bytes were written elsewhere.
proof fn lemma_word_kept(m: MemView, w: Seq<Store>, from: u64, d: Seq<u8>, i: int)
    requires
        0 <= i < w.len(),
        m.store_all(w).fault is None,
        w[i].size == 4,
        w[i].value <= u32::MAX,
        m.can_read(w[i].addr as int, 4),
        m.can_write(from as int, d.len() as int),
        w[i].addr + 4 <= from || from + d.len() <= w[i].addr,
        forall|j: int| i < j < w.len() ==> apart(w[i], #[trigger] w[j]),
    ensures
        m.store_all(w).mem.put(from as int, d).r32(w[i].addr) == Ok::<u32, Fault>(
            w[i].value as u32,
        ),
{
    let k = m.store_all(w).mem;
    lemma_pow256();
    lemma_store_all_shape(m, w);
    lemma_store_all_get(m, w, i);
    lemma_put_shape(k, from as int, d);
    assert(k.can_read(w[i].addr as int, 4));
    lemma_put_other(k, from as int, d, w[i].addr as int, 4);
    assert(k.put(from as int, d).can_read(w[i].addr as int, 4));
}

/// How many bytes of data a record with the data alone holds in a buffer of `length` bytes.
pub open spec fn partial_len(length: u64, len: nat) -> nat {
    if length - 12 < len {
        (length - 12) as nat
    } else {
        len
    }
}

/// Whether a reply lays a value down as a record with its data alone in a buffer of `length`
/// bytes: its type, how long its data is, and the data as far as the buffer goes. How long
/// the whole record is, is told.
pub open spec fn holds_partial(o: Reply, told: u64, buf: u64, length: u64, v: ValueView) -> bool {
    let len = v.data.len();
    let n = partial_len(length, len);
    &&& o.mem.r32(told) == Ok::<u32, Fault>((12 + len) as u32)
    &&& o.mem.r32(buf) == Ok::<u32, Fault>(0)
    &&& o.mem.r32((buf + 4) as u64) == Ok::<u32, Fault>(v.ty)
    &&& o.mem.r32((buf + 8) as u64) == Ok::<u32, Fault>(len as u32)
    &&& o.mem.read((buf + 12) as u64, n) == Ok::<Seq<u8>, Fault>(v.data.take(n as int))
    &&& o.r == Ok::<u64, Fault>(
        if length as u32 >= 12 + len {
            STATUS_SUCCESS
        } else {
            STATUS_BUFFER_OVERFLOW
        },
    )
}

/// A value that is asked for as a record with its data alone is laid down as such, wherever
/// the buffer takes it.
pub proof fn lemma_partial_record(r: RegView, rsp: u64, c: CpuView, m: MemView, b: Seq<u64>, v: ValueView)
    requires
        m.wf(),
        sysargs_at(rsp, c, m, seq![0, 1, 2, 3, 4, 5]) == Ok::<Seq<u64>, Fault>(b),
        r.resolve(b[0]) is Some,
        r.value(r.resolve(b[0])->0, text_or_empty(m, b[1])) == Some(v),
        12 + v.data.len() <= u32::MAX,
        b[2] == 2,
        b[4] as u32 >= 12,
        b[5] != 0,
        nt_query_value_reply(r, rsp, c, m).r is Ok,
        record_readable(m, b[5], b[3], partial_len(b[4], v.data.len())),
    ensures
        holds_partial(nt_query_value_reply(r, rsp, c, m), b[5], b[3], b[4], v),
{
    let name = text_or_empty(m, b[1]);
    let buf = b[3];
    let length = b[4];
    lemma_low_half(length);
    let d = head(v.data, length - 12);
    assert(d.len() == partial_len(length, v.data.len()));
    assert(opt(s32(b[5], value_total(2, name, v))) =~= seq![s32(b[5], value_total(2, name, v))]);
    lemma_words_read_back(
        m,
        b[5],
        value_total(2, name, v),
        buf,
        v.ty,
        v.data.len() as u32,
        d,
    );
    assert(d =~= v.data.take(d.len() as int));
}

/// What `NtSetValueKey` stored under a name, `NtQueryValueKey` gives back for the same
/// key and name, as long as the value was not written since: the type, and the bytes as
/// far as the buffer goes.
pub proof fn lemma_nt_set_then_query(
    x: RegCtx,
    rsp: u64,
    c: CpuView,
    m: MemView,
    a: Seq<u64>,
    r: RegView,
    rsp2: u64,
    c2: CpuView,
    m2: MemView,
    b: Seq<u64>,
)
    requires
        m.wf(),
        sysargs_at(rsp, c, m, seq![0, 1, 3, 4, 5]) == Ok::<Seq<u64>, Fault>(a),
        nt_set_out(x, rsp, c, m).reply.r == Ok::<u64, Fault>(STATUS_SUCCESS),
        12 + a[4] <= u32::MAX,
        r.resolve(a[0]) == x.reg.resolve(a[0]),
        r.value(r.resolve(a[0])->0, text_or_empty(m, a[1])) == nt_set_out(
            x,
            rsp,
            c,
            m,
        ).ctx.reg.value(r.resolve(a[0])->0, text_or_empty(m, a[1])),
        m2.wf(),
        sysargs_at(rsp2, c2, m2, seq![0, 1, 2, 3, 4, 5]) == Ok::<Seq<u64>, Fault>(b),
        b[0] == a[0],
        text_or_empty(m2, b[1]) == text_or_empty(m, a[1]),
        b[2] == 2,
        b[4] as u32 >= 12,
        b[5] != 0,
        nt_query_value_reply(r, rsp2, c2, m2).r is Ok,
        record_readable(m2, b[5], b[3], partial_len(b[4], a[4] as nat)),
    ensures
        value_bytes(m, a[3], a[4]) is Ok,
        value_bytes(m, a[3], a[4])->Ok_0.len() == a[4],
        holds_partial(
            nt_query_value_reply(r, rsp2, c2, m2),
            b[5],
            b[3],
            b[4],
            ValueView { ty: a[2] as u32, data: value_bytes(m, a[3], a[4])->Ok_0 },
        ),
{
    let path = x.reg.resolve(a[0])->0;
    let name = text_or_empty(m, a[1]);
    let v = ValueView { ty: a[2] as u32, data: value_bytes(m, a[3], a[4])->Ok_0 };
    lemma_value_len(m, a[3], a[4]);
    lemma_set_then_get(x.reg, path, name, v, path, name);
    lemma_partial_record(r, rsp2, c2, m2, b, v);
}

// ---- calls ------------------------------------------------------------------

/// The low half of a number is no larger than the number.
proof fn lemma_low_half(x: u64)
    ensures
        x as u32 <= x,
{
    assert((x as u32) as u64 <= x) by (bit_vector);
}

/// The size of a text in bytes, as the information records count it.
fn size_of_text(s: &str) -> (r: u32)
    ensures
        r == text_bytes(s@),
{
    let u = encode_utf16(s);
    (u.len() as u128 * 2) as u32
}

/// Perform the stores of a table and answer with `v`.
pub fn finish(mem: &mut VirtualMemory, t: &Vec<Store>, v: u64) -> (r: Result<u64, Fault>)
    requires
        crate::mem::table_ok(t@),
    ensures
        final(mem)@ == answer_stores(old(mem)@, t@, v).mem,
        r == answer_stores(old(mem)@, t@, v).r,
{
    match mem.store_all(t) {
        Ok(_) => Ok(v),
        Err(f) => Err(f),
    }
}

impl Registry {
    /// `NtCreateKey`.
    pub fn nt_create_key(
        &mut self,
        next: &mut u64,
        error: &mut u32,
        is_64bit: bool,
        rsp: u64,
        cpu: &CpuState,
        mem: &mut VirtualMemory,
    ) -> (r: Result<u64, Fault>)
        requires
            *old(next) <= u64::MAX - 4,
        ensures
            had_outcome(
                nt_create_out(
                    reg_ctx(*old(self), *old(next), *old(error)),
                    is_64bit,
                    rsp,
                    cpu@,
                    old(mem)@,
                ),
                *final(self),
                *final(next),
                *final(error),
                final(mem)@,
                r,
            ),
    {
        let list: Vec<u64> = vec![0, 2, 6];
        assert(list@ =~= seq![0u64, 2, 6]);
        let a = match sysargs(rsp, cpu, mem, &list) {
            Ok(v) => v,
            Err(f) => {
                return Err(f);
            },
        };
        if a[0] == 0 {
            return Ok(STATUS_INVALID_PARAMETER);
        }
        let path = match self.nt_reg_resolve(mem, a[1]) {
            Some(p) => p,
            None => {
                return Ok(STATUS_INVALID_PARAMETER);
            },
        };
        let disposition: u32 = if self.reg_key_exists(path.as_str()) {
            2
        } else {
            1
        };
        self.create_key(path.as_str());
        let h: u64 = *next;
        *next = h + 4;
        self.open_handle(h, path);
        let mut t: Vec<Store> = vec![store_ptr(is_64bit, a[0], h)];
        push_opt(&mut t, store32(a[2], disposition));
        assert(t@ =~= seq![sptr(is_64bit, a[0], h)] + opt(s32(a[2], disposition)));
        finish(mem, &t, STATUS_SUCCESS)
    }

    /// `NtOpenKey`.
    pub fn nt_open_key(
        &mut self,
        next: &mut u64,
        error: &mut u32,
        is_64bit: bool,
        rsp: u64,
        cpu: &CpuState,
        mem: &mut VirtualMemory,
    ) -> (r: Result<u64, Fault>)
        requires
            *old(next) <= u64::MAX - 4,
        ensures
            had_outcome(
                nt_open_out(
                    reg_ctx(*old(self), *old(next), *old(error)),
                    is_64bit,
                    rsp,
                    cpu@,
                    old(mem)@,
                ),
                *final(self),
                *final(next),
                *final(error),
                final(mem)@,
                r,
            ),
    {
        let list: Vec<u64> = vec![0, 2];
        assert(list@ =~= seq![0u64, 2]);
        let a = match sysargs(rsp, cpu, mem, &list) {
            Ok(v) => v,
            Err(f) => {
                return Err(f);
            },
        };
        if a[0] == 0 {
            return Ok(STATUS_INVALID_PARAMETER);
        }
        let path = match self.nt_reg_resolve(mem, a[1]) {
            Some(p) => p,
            None => {
                return Ok(STATUS_INVALID_PARAMETER);
            },
        };
        if !self.reg_key_exists(path.as_str()) {
            return Ok(STATUS_OBJECT_NAME_NOT_FOUND);
        }
        let h: u64 = *next;
        *next = h + 4;
        self.open_handle(h, path);
        let t: Vec<Store> = vec![store_ptr(is_64bit, a[0], h)];
        assert(t@ =~= seq![sptr(is_64bit, a[0], h)]);
        finish(mem, &t, STATUS_SUCCESS)
    }

    /// `NtSetValueKey`.
    pub fn nt_set_value_key(
        &mut self,
        next: &mut u64,
        error: &mut u32,
        rsp: u64,
        cpu: &CpuState,
        mem: &mut VirtualMemory,
    ) -> (r: Result<u64, Fault>)
        ensures
            had_outcome(
                nt_set_out(reg_ctx(*old(self), *old(next), *old(error)), rsp, cpu@, old(mem)@),
                *final(self),
                *final(next),
                *final(error),
                final(mem)@,
                r,
            ),
    {
        let list: Vec<u64> = vec![0, 1, 3, 4, 5];
        assert(list@ =~= seq![0u64, 1, 3, 4, 5]);
        let a = match sysargs(rsp, cpu, mem, &list) {
            Ok(v) => v,
            Err(f) => {
                return Err(f);
            },
        };
        let path = match self.reg_resolve(a[0]) {
            Some(p) => p,
            None => {
                return Ok(STATUS_INVALID_HANDLE);
            },
        };
        let name = read_text_or_empty(mem, a[1]);
        let data = match read_value(mem, a[3], a[4]) {
            Ok(d) => d,
            Err(f) => {
                return Err(f);
            },
        };
        self.set_value(path.as_str(), name.as_str(), a[2] as u32, data);
        Ok(STATUS_SUCCESS)
    }

    /// `NtQueryValueKey`.
    pub fn nt_query_value_key(&self, rsp: u64, cpu: &CpuState, mem: &mut VirtualMemory) -> (r:
        Result<u64, Fault>)
        ensures
            final(mem)@ == nt_query_value_reply(self@, rsp, cpu@, old(mem)@).mem,
            r == nt_query_value_reply(self@, rsp, cpu@, old(mem)@).r,
    {
        let list: Vec<u64> = vec![0, 1, 2, 3, 4, 5];
        assert(list@ =~= seq![0u64, 1, 2, 3, 4, 5]);
        let a = match sysargs(rsp, cpu, mem, &list) {
            Ok(v) => v,
            Err(f) => {
                return Err(f);
            },
        };
        let path = match self.reg_resolve(a[0]) {
            Some(p) => p,
            None => {
                return Ok(STATUS_INVALID_HANDLE);
            },
        };
        let name = read_text_or_empty(mem, a[1]);
        let v = match self.get_value(path.as_str(), name.as_str()) {
            Some(v) => v,
            None => {
                return Ok(STATUS_OBJECT_NAME_NOT_FOUND);
            },
        };
        let class: u64 = a[2];
        let buf: u64 = a[3];
        let length: u64 = a[4];
        if class > 2 {
            return Ok(STATUS_INVALID_PARAMETER);
        }
        let nb: u32 = size_of_text(name.as_str());
        let dl: u32 = v.data.len() as u32;
        let (header, total): (u32, u32) = if class == 0 {
            (12, (12 + nb as u64) as u32)
        } else if class == 1 {
            (20, (20 + nb as u64 + dl as u64) as u32)
        } else {
            (12, (12 + dl as u64) as u32)
        };
        assert(total == value_total(class, name@, v@));
        let mut told: Vec<Store> = Vec::new();
        push_opt(&mut told, store32(a[5], total));
        assert(told@ =~= opt(s32(a[5], total)));
        match mem.store_all(&told) {
            Ok(_) => {},
            Err(f) => {
                return Err(f);
            },
        }
        if (length as u32) < header {
            return Ok(STATUS_BUFFER_TOO_SMALL);
        }
        proof {
            lemma_low_half(length);
        }
        let status: u64 = if (length as u32) < total {
            STATUS_BUFFER_OVERFLOW
        } else {
            STATUS_SUCCESS
        };
        let ghost k = mem@;
        if class == 0 {
            let mut t: Vec<Store> = vec![
                store32(buf, 0),
                store32(at(buf, 4), v.ty),
                store32(at(buf, 8), nb),
            ];
            let mut u = text_stores(at(buf, 12), name.as_str(), length - 12);
            t.append(&mut u);
            proof {
                assert(t@ =~= seq![s32(buf, 0), s32(ga(buf, 4), v.ty), s32(ga(buf, 8), nb)]
                    + text_table(ga(buf, 12), name@, (length - 12) as u64));
            }
            finish(mem, &t, status)
        } else if class == 1 {
            let mut t: Vec<Store> = vec![
                store32(buf, 0),
                store32(at(buf, 4), v.ty),
                store32(at(buf, 8), (20 + nb as u64) as u32),
                store32(at(buf, 12), dl),
                store32(at(buf, 16), nb),
            ];
            let mut u = text_stores(at(buf, 20), name.as_str(), length - 20);
            t.append(&mut u);
            proof {
                assert(t@ =~= seq![
                    s32(buf, 0),
                    s32(ga(buf, 4), v.ty),
                    s32(ga(buf, 8), (20 + nb) as u32),
                    s32(ga(buf, 12), dl),
                    s32(ga(buf, 16), nb),
                ] + text_table(ga(buf, 20), name@, (length - 20) as u64));
            }
            match mem.store_all(&t) {
                Ok(_) => {},
                Err(f) => {
                    return Err(f);
                },
            }
            let from: u64 = 20 + nb as u64;
            if length > from {
                let d = head_of(&v.data, length - from);
                match mem.write(at(buf, from), &d) {
                    Ok(_) => {},
                    Err(f) => {
                        return Err(f);
                    },
                }
            }
            Ok(status)
        } else {
            let t: Vec<Store> = vec![
                store32(buf, 0),
                store32(at(buf, 4), v.ty),
                store32(at(buf, 8), dl),
            ];
            assert(t@ =~= seq![s32(buf, 0), s32(ga(buf, 4), v.ty), s32(ga(buf, 8), dl)]);
            match mem.store_all(&t) {
                Ok(_) => {},
                Err(f) => {
                    return Err(f);
                },
            }
            let d = head_of(&v.data, length - 12);
            match mem.write(at(buf, 12), &d) {
                Ok(_) => Ok(status),
                Err(f) => Err(f),
            }
        }
    }

    /// `NtEnumerateKey`.
    pub fn nt_enumerate_key(
        &self,
        now: u64,
        rsp: u64,
        cpu: &CpuState,
        mem: &mut VirtualMemory,
    ) -> (r: Result<u64, Fault>)
        ensures
            final(mem)@ == nt_enumerate_reply(self@, now, rsp, cpu@, old(mem)@).mem,
            r == nt_enumerate_reply(self@, now, rsp, cpu@, old(mem)@).r,
    {
        let list: Vec<u64> = vec![0, 1, 2, 3, 4, 5];
        assert(list@ =~= seq![0u64, 1, 2, 3, 4, 5]);
        let a = match sysargs(rsp, cpu, mem, &list) {
            Ok(v) => v,
            Err(f) => {
                return Err(f);
            },
        };
        let base = match self.reg_resolve(a[0]) {
            Some(p) => p,
            None => {
                return Ok(STATUS_INVALID_HANDLE);
            },
        };
        let subs = self.subkeys(base.as_str());
        if a[1] >= subs.len() as u64 {
            return Ok(STATUS_NO_MORE_ENTRIES);
        }
        if a[2] > 1 {
            return Ok(STATUS_INVALID_PARAMETER);
        }
        let name = string_of(&subs[a[1] as usize]);
        write_key_record(mem, a[2], a[3], a[4], a[5], name.as_str(), now)
    }

    /// `NtQueryKey`.
    pub fn nt_query_key(&self, now: u64, rsp: u64, cpu: &CpuState, mem: &mut VirtualMemory) -> (r:
        Result<u64, Fault>)
        ensures
            final(mem)@ == nt_query_key_reply(self@, now, rsp, cpu@, old(mem)@).mem,
            r == nt_query_key_reply(self@, now, rsp, cpu@, old(mem)@).r,
    {
        let list: Vec<u64> = vec![0, 1, 2, 3, 4];
        assert(list@ =~= seq![0u64, 1, 2, 3, 4]);
        let a = match sysargs(rsp, cpu, mem, &list) {
            Ok(v) => v,
            Err(f) => {
                return Err(f);
            },
        };
        let path = match self.reg_resolve(a[0]) {
            Some(p) => p,
            None => {
                return Ok(STATUS_INVALID_HANDLE);
            },
        };
        let buf: u64 = a[2];
        let length: u64 = a[3];
        if a[1] <= 1 {
            let name = string_of(&reg_leaf(path.as_str()));
            return write_key_record(mem, a[1], buf, length, a[4], name.as_str(), now);
        }
        if a[1] == 2 {
            let subs = self.subkeys(path.as_str());
            let names = self.value_names(path.as_str());
            let mut told: Vec<Store> = Vec::new();
            push_opt(&mut told, store32(a[4], 44));
            assert(told@ =~= opt(s32(a[4], 44)));
            match mem.store_all(&told) {
                Ok(_) => {},
                Err(f) => {
                    return Err(f);
                },
            }
            if length < 44 {
                return Ok(STATUS_BUFFER_TOO_SMALL);
            }
            let t: Vec<Store> = vec![
                store64(buf, now),
                store32(at(buf, 8), 0),
                store32(at(buf, 12), 44),
                store32(at(buf, 16), 0),
                store32(at(buf, 20), subs.len() as u32),
                store32(at(buf, 24), (max_units(&subs) as u128 * 2) as u32),
                store32(at(buf, 28), 0),
                store32(at(buf, 32), names.len() as u32),
                store32(at(buf, 36), (max_units(&names) as u128 * 2) as u32),
                store32(at(buf, 40), self.max_data(path.as_str(), &names) as u32),
            ];
            assert(t@ =~= full_table(self@, path@, buf, now));
            return finish(mem, &t, STATUS_SUCCESS);
        }
        if a[1] == 3 {
            let nb: u32 = size_of_text(path.as_str());
            let total: u32 = (4 + nb as u64) as u32;
            let mut told: Vec<Store> = Vec::new();
            push_opt(&mut told, store32(a[4], total));
            assert(told@ =~= opt(s32(a[4], total)));
            match mem.store_all(&told) {
                Ok(_) => {},
                Err(f) => {
                    return Err(f);
                },
            }
            if length < 4 {
                return Ok(STATUS_BUFFER_TOO_SMALL);
            }
            let mut t: Vec<Store> = vec![store32(buf, nb)];
            let mut u = text_stores(at(buf, 4), path.as_str(), length - 4);
            t.append(&mut u);
            assert(t@ =~= seq![s32(buf, nb)] + text_table(
                ga(buf, 4),
                path@,
                (length - 4) as u64,
            ));
            return finish(
                mem,
                &t,
                if length < total as u64 {
                    STATUS_BUFFER_OVERFLOW
                } else {
                    STATUS_SUCCESS
                },
            );
        }
        Ok(STATUS_INVALID_PARAMETER)
    }
}

/// Write the record of a key's name.
fn write_key_record(
    mem: &mut VirtualMemory,
    class: u64,
    buf: u64,
    length: u64,
    told: u64,
    name: &str,
    now: u64,
) -> (r: Result<u64, Fault>)
    ensures
        final(mem)@ == key_record(old(mem)@, class, buf, length, told, name@, now).mem,
        r == key_record(old(mem)@, class, buf, length, told, name@, now).r,
{
    let nb: u32 = size_of_text(name);
    let off: u64 = if class == 0 {
        16
    } else {
        24
    };
    let total: u32 = (off + nb as u64) as u32;
    let mut size: Vec<Store> = Vec::new();
    push_opt(&mut size, store32(told, total));
    assert(size@ =~= opt(s32(told, total)));
    match mem.store_all(&size) {
        Ok(_) => {},
        Err(f) => {
            return Err(f);
        },
    }
    if length < off {
        return Ok(STATUS_BUFFER_TOO_SMALL);
    }
    let mut t: Vec<Store> = if class == 0 {
        vec![store64(buf, now), store32(at(buf, 8), 0), store32(at(buf, 12), nb)]
    } else {
        vec![
            store64(buf, now),
            store32(at(buf, 8), 0),
            store32(at(buf, 12), 0),
            store32(at(buf, 16), 0),
            store32(at(buf, 20), nb),
        ]
    };
    let ghost fixed = if class == 0 {
        seq![s64(buf, now), s32(ga(buf, 8), 0), s32(ga(buf, 12), nb)]
    } else {
        seq![
            s64(buf, now),
            s32(ga(buf, 8), 0),
            s32(ga(buf, 12), 0),
            s32(ga(buf, 16), 0),
            s32(ga(buf, 20), nb),
        ]
    };
    assert(t@ =~= fixed);
    let mut u = text_stores(at(buf, off), name, length - off);
    t.append(&mut u);
    assert(t@ =~= fixed + text_table(ga(buf, off as int), name@, (length - off) as u64));
    finish(
        mem,
        &t,
        if length < total as u64 {
            STATUS_BUFFER_OVERFLOW
        } else {
            STATUS_SUCCESS
        },
    )
}

} // verus!
