//! The registry: what its calls keep, and what they tell of it.

use vstd::prelude::*;

use crate::api::Api;
use crate::call::args_at;
use crate::config::WinConfig;
use crate::cpu::CpuView;
use crate::dispatch::dispatch_out;
use crate::gstr::guest_text;
use crate::hive::{
    below_path, child_names, first_part, is_separator, key_join, leads_to, lemma_delete_key,
    lemma_set_then_get, root_name, within, RegView, ValueView,
};
use crate::host::HostReply;
use crate::laws::{
    given, gives, lemma_read_1, lemma_read_2, lemma_read_3, lemma_read_list, lemma_told,
};
use crate::laws::files::lemma_one_store;
use crate::laws::served::{
    bound_reg_close, bound_reg_create, bound_reg_delete_key, bound_reg_delete_value,
    bound_reg_enum_key, bound_reg_open, bound_reg_query, bound_reg_query_info, bound_reg_set,
};
use crate::mem::{
    apart, lemma_find_region, lemma_pow256, lemma_put_get, lemma_put_shape, lemma_store_all_get,
    lemma_sub_access, opt, s32, s64, sptr, Fault, MemView,
};
use crate::named::Named;
use crate::names::{is_listing, text_before};
use crate::ntreg::{after_part, hive_path, trimmed};
use crate::os::OsView;
use crate::reg::{data_reply, info_table, name_reply, query_info_out, query_out, RegCtx};
use crate::text::lower_text;
use crate::util::{lemma_first_index_is, lemma_first_index_none};

verus! {

// ---- roots ------------------------------------------------------------------

/// Whether a handle is one of the predefined roots.
pub open spec fn is_root(h: u64) -> bool {
    0x8000_0000 <= h <= 0x8000_0003 || h == 0x8000_0005
}

/// The characters of the names of the roots.
proof fn lemma_root_names(h: u64)
    requires
        is_root(h),
    ensures
        root_name(h) is Some,
        h == 0x8000_0000 ==> root_name(h)->0 == seq!['H', 'K', 'C', 'R'],
        h == 0x8000_0001 ==> root_name(h)->0 == seq!['H', 'K', 'C', 'U'],
        h == 0x8000_0002 ==> root_name(h)->0 == seq!['H', 'K', 'L', 'M'],
        h == 0x8000_0003 ==> root_name(h)->0 == seq!['H', 'K', 'U'],
        h == 0x8000_0005 ==> root_name(h)->0 == seq!['H', 'K', 'C', 'C'],
{
    reveal_strlit("HKCR");
    reveal_strlit("HKCU");
    reveal_strlit("HKLM");
    reveal_strlit("HKU");
    reveal_strlit("HKCC");
    assert("HKCR"@ =~= seq!['H', 'K', 'C', 'R']);
    assert("HKCU"@ =~= seq!['H', 'K', 'C', 'U']);
    assert("HKLM"@ =~= seq!['H', 'K', 'L', 'M']);
    assert("HKU"@ =~= seq!['H', 'K', 'U']);
    assert("HKCC"@ =~= seq!['H', 'K', 'C', 'C']);
}

/// Different roots hold different keys: no key below one is a key below another.
pub proof fn lemma_roots_apart(r: RegView, h1: u64, s1: Seq<char>, h2: u64, s2: Seq<char>)
    requires
        is_root(h1),
        is_root(h2),
        h1 != h2,
    ensures
        r.join(h1, s1) is Some,
        r.join(h2, s2) is Some,
        r.join(h1, s1) != r.join(h2, s2),
{
    lemma_root_names(h1);
    lemma_root_names(h2);
    let a = root_name(h1)->0;
    let b = root_name(h2)->0;
    let p = key_join(a, s1);
    let q = key_join(b, s2);
    assert(p[2] == a[2] && q[2] == b[2]);
    assert(a.len() > 3 ==> p[3] == a[3]);
    assert(b.len() > 3 ==> q[3] == b[3]);
    if a.len() == 3 && s1.len() > 0 {
        assert(p[3] == '\\');
    }
    if b.len() == 3 && s2.len() > 0 {
        assert(q[3] == '\\');
    }
}

/// Where a fresh process finds the values that installers look for.
pub proof fn lemma_seeded_values(cfg: WinConfig)
    ensures
        ({
            let r = OsView::initial(cfg).reg;
            let user = r.join(0x8000_0001, "Software"@)->0;
            let nt = r.join(
                0x8000_0002,
                "SOFTWARE\\Microsoft\\Windows NT\\CurrentVersion"@,
            )->0;
            &&& r.value(user, ""@) is Some
            &&& r.value(nt, "CurrentBuildNumber"@) is Some
        }),
{
    let r = OsView::initial(cfg).reg;
    lemma_root_names(0x8000_0001);
    lemma_root_names(0x8000_0002);
    reveal_strlit("Software");
    reveal_strlit("HKCU\\Software");
    assert("HKCU\\Software"@ =~= seq!['H', 'K', 'C', 'U'] + seq!['\\'] + "Software"@);
    reveal_strlit("SOFTWARE\\Microsoft\\Windows NT\\CurrentVersion");
    reveal_strlit("HKLM\\SOFTWARE\\Microsoft\\Windows NT\\CurrentVersion");
    assert("HKLM\\SOFTWARE\\Microsoft\\Windows NT\\CurrentVersion"@ =~= seq!['H', 'K', 'L', 'M']
        + seq!['\\'] + "SOFTWARE\\Microsoft\\Windows NT\\CurrentVersion"@);
}

// ---- keys and values --------------------------------------------------------

/// A key handle that a call stored through a pointer, and a word behind it.
proof fn lemma_handle_told(m: MemView, is_64bit: bool, p: u64, h: u64, q: u64, x: u32)
    requires
        p != 0,
        h <= u32::MAX,
        m.can_read(
            p as int,
            if is_64bit {
                8
            } else {
                4
            },
        ),
        m.store_all(opt(sptr(is_64bit, p, h)) + opt(s32(q, x))).fault is None,
        q + 4 <= p || p + 8 <= q,
    ensures
        m.store_all(opt(sptr(is_64bit, p, h)) + opt(s32(q, x))).mem.rptr(is_64bit, p) == Ok::<
            u64,
            Fault,
        >(h),
{
    let t = opt(sptr(is_64bit, p, h)) + opt(s32(q, x));
    lemma_pow256();
    assert(t[0] == sptr(is_64bit, p, h));
    assert forall|j: int| 0 < j < t.len() implies apart(t[0], #[trigger] t[j]) by {
        assert(t[j] == s32(q, x));
    }
    lemma_store_all_get(m, t, 0);
}

/// `RegCreateKeyEx` gives a handle on the key of that name below the open one, which is there
/// from then on with the values it had.
pub proof fn lemma_creates_key(
    v: OsView,
    c: CpuView,
    m: MemView,
    host: HostReply,
    a: Seq<u64>,
    wide: bool,
    sub: Seq<char>,
    path: Seq<char>,
)
    requires
        given(v, c, m, a),
        a.len() == 9,
        guest_text(m, a[1], wide) == Ok::<Seq<char>, Fault>(sub),
        v.reg.join(a[0], sub) == Some(path),
        v.next_handle <= 0x7FFF_0000,
        a[7] != 0,
        a[8] + 4 <= a[7] || a[7] + 8 <= a[8],
        m.can_read(a[7] as int, 8),
        m.wf(),
        dispatch_out(v, Api::Bound(Named::RegCreate { wide }), c, m, host).r is Ok,
    ensures
        ({
            let o = dispatch_out(v, Api::Bound(Named::RegCreate { wide }), c, m, host);
            let h = o.mem.rptr(v.wide(), a[7])->Ok_0;
            &&& gives(o, 0)
            &&& o.mem.rptr(v.wide(), a[7]) is Ok
            &&& o.os.reg.resolve(h) == Some(path)
            &&& o.os.reg.has_key(path)
            &&& forall|p: Seq<char>, n: Seq<char>| #[trigger]
                o.os.reg.value(p, n) == v.reg.value(p, n)
            &&& o.os.next_handle > h
        }),
{
    bound_reg_create(v, c, m, host, wide);
    lemma_read_2(v, c, m, a, 0, 1);
    lemma_read_2(v, c, m, a, 7, 8);
    let disposition: u32 = if v.reg.keys.contains_key(path) {
        2
    } else {
        1
    };
    lemma_sub_access(m, a[7] as int, 8, a[7] as int, 4);
    lemma_handle_told(m, v.wide(), a[7], v.next_handle, a[8], disposition);
    let r = v.reg.created(path).opened(v.next_handle, path);
    assert(within(path, path));
    assert(r.keys.contains_key(path));
    assert forall|p: Seq<char>, n: Seq<char>| #[trigger] r.value(p, n) == v.reg.value(p, n) by {}
}

/// `RegOpenKeyEx` gives a handle on a key that is there, and none on one that is not.
pub proof fn lemma_opens_key(
    v: OsView,
    c: CpuView,
    m: MemView,
    host: HostReply,
    a: Seq<u64>,
    wide: bool,
    sub: Seq<char>,
    path: Seq<char>,
)
    requires
        given(v, c, m, a),
        a.len() == 5,
        guest_text(m, a[1], wide) == Ok::<Seq<char>, Fault>(sub),
        v.reg.join(a[0], sub) == Some(path),
        v.next_handle <= 0x7FFF_0000,
        a[4] != 0,
        m.can_read(a[4] as int, 8),
        m.wf(),
        dispatch_out(v, Api::Bound(Named::RegOpen { wide }), c, m, host).r is Ok,
    ensures
        ({
            let o = dispatch_out(v, Api::Bound(Named::RegOpen { wide }), c, m, host);
            let h = o.mem.rptr(v.wide(), a[4])->Ok_0;
            &&& gives(o, 0) <==> v.reg.has_key(path)
            &&& gives(o, 2) <==> !v.reg.has_key(path)
            &&& o.os.reg.keys == v.reg.keys
            &&& gives(o, 0) ==> o.mem.rptr(v.wide(), a[4]) is Ok && o.os.reg.resolve(h) == Some(path)
        }),
{
    reveal(crate::reg::open_out);
    bound_reg_open(v, c, m, host, wide);
    lemma_read_2(v, c, m, a, 0, 1);
    lemma_read_1(v, c, m, a, 4);
    lemma_sub_access(m, a[4] as int, 8, a[4] as int, 4);
    if v.reg.has_key(path) {
        let t = seq![sptr(v.wide(), a[4], v.next_handle)];
        assert(opt(sptr(v.wide(), a[4], v.next_handle)) =~= t);
        lemma_pow256();
        lemma_store_all_get(m, t, 0);
    }
}

/// `RegSetValueEx` gives the value of that name its type and its bytes, and changes no other
/// value of any key.
pub proof fn lemma_sets_value(
    v: OsView,
    c: CpuView,
    m: MemView,
    host: HostReply,
    a: Seq<u64>,
    wide: bool,
    name: Seq<char>,
    path: Seq<char>,
    p: Seq<char>,
    n: Seq<char>,
)
    requires
        m.wf(),
        given(v, c, m, a),
        a.len() == 6,
        guest_text(m, a[1], wide) == Ok::<Seq<char>, Fault>(name),
        v.reg.resolve(a[0]) == Some(path),
        a[4] != 0,
        0 < a[5],
        m.can_read(a[4] as int, a[5] as int),
    ensures
        ({
            let o = dispatch_out(v, Api::Bound(Named::RegSet { wide }), c, m, host);
            let w = o.os.reg.value(path, name);
            &&& gives(o, 0)
            &&& o.mem == m
            &&& w is Some
            &&& w->0.ty == a[3] as u32
            &&& m.read(a[4], a[5] as nat) == Ok::<Seq<u8>, Fault>(w->0.data)
            &&& p != path || n != name ==> o.os.reg.value(p, n) == v.reg.value(p, n)
            &&& o.os.reg.handles == v.reg.handles
        }),
{
    reveal(crate::reg::set_out);
    bound_reg_set(v, c, m, host, wide);
    lemma_read_2(v, c, m, a, 0, 1);
    lemma_read_3(v, c, m, a, 3, 4, 5);
    lemma_find_region(m.regions, a[4] as int);
    lemma_set_then_get(
        v.reg,
        path,
        name,
        ValueView { ty: a[3] as u32, data: m.read(a[4], a[5] as nat)->Ok_0 },
        p,
        n,
    );
}

/// A value that is set below one root leaves every value below another root as it was.
pub proof fn lemma_hives_apart(
    v: OsView,
    c: CpuView,
    m: MemView,
    host: HostReply,
    a: Seq<u64>,
    wide: bool,
    name: Seq<char>,
    h1: u64,
    s1: Seq<char>,
    h2: u64,
    s2: Seq<char>,
    n: Seq<char>,
)
    requires
        m.wf(),
        given(v, c, m, a),
        a.len() == 6,
        guest_text(m, a[1], wide) == Ok::<Seq<char>, Fault>(name),
        is_root(h1),
        is_root(h2),
        h1 != h2,
        v.reg.resolve(a[0]) == v.reg.join(h1, s1),
        a[4] != 0,
        0 < a[5],
        m.can_read(a[4] as int, a[5] as int),
    ensures
        ({
            let o = dispatch_out(v, Api::Bound(Named::RegSet { wide }), c, m, host);
            o.os.reg.value(o.os.reg.join(h2, s2)->0, n) == v.reg.value(v.reg.join(h2, s2)->0, n)
        }),
{
    lemma_roots_apart(v.reg, h1, s1, h2, s2);
    lemma_roots_apart(v.reg, h2, s2, h1, s1);
    lemma_sets_value(
        v,
        c,
        m,
        host,
        a,
        wide,
        name,
        v.reg.join(h1, s1)->0,
        v.reg.join(h2, s2)->0,
        n,
    );
}

/// Handing out the data of a value to a buffer apart from its count.
proof fn lemma_data_told(m: MemView, p: u64, count: u64, d: Seq<u8>)
    requires
        count != 0,
        d.len() <= u32::MAX,
        m.can_read(count as int, 4),
        count + 4 <= p || p + d.len() <= count,
        data_reply(m, p, count, d).r is Ok,
    ensures
        ({
            let o = data_reply(m, p, count, d);
            let room = m.r32(count)->Ok_0;
            &&& o.mem.r32(count) == Ok::<u32, Fault>(d.len() as u32)
            &&& p == 0 || d.len() <= room <==> o.r == Ok::<u64, Fault>(0)
            &&& p != 0 && room < d.len() <==> o.r == Ok::<u64, Fault>(234)
            &&& p != 0 && d.len() <= room && m.can_read(p as int, d.len() as int) ==> o.mem.read(
                p,
                d.len(),
            ) == Ok::<Seq<u8>, Fault>(d)
        }),
{
    let n = d.len() as u32;
    let t = seq![s32(count, n)];
    assert(opt(s32(count, n)) =~= t);
    lemma_pow256();
    if p != 0 && m.r32(count) is Ok && m.r32(count)->Ok_0 >= n {
        lemma_put_shape(m, p as int, d);
        lemma_put_get(m, p as int, d);
        let k = m.put(p as int, d);
        assert(k.can_read(count as int, 4));
        lemma_told(k, count, n);
        lemma_one_store(k, count, n, p, d.len());
        if m.can_read(p as int, d.len() as int) {
            assert(k.can_read(p as int, d.len() as int));
        }
    } else {
        lemma_told(m, count, n);
    }
}

/// What a query that does not ask for the type replies with.
proof fn lemma_query_reply(
    x: RegCtx,
    is_64bit: bool,
    c: CpuView,
    m: MemView,
    wide: bool,
    a: Seq<u64>,
    name: Seq<char>,
    path: Seq<char>,
    val: ValueView,
)
    requires
        args_at(is_64bit, c, m, seq![0, 1]) == Ok::<Seq<u64>, Fault>(seq![a[0], a[1]]),
        args_at(is_64bit, c, m, seq![3, 4, 5]) == Ok::<Seq<u64>, Fault>(seq![a[3], a[4], a[5]]),
        guest_text(m, a[1], wide) == Ok::<Seq<char>, Fault>(name),
        x.reg.resolve(a[0]) == Some(path),
        x.reg.value(path, name) == Some(val),
        a[3] == 0,
    ensures
        query_out(x, is_64bit, c, m, wide).ctx == x,
        query_out(x, is_64bit, c, m, wide).reply == data_reply(m, a[4], a[5], val.data),
{
    reveal(crate::reg::query_out);
    assert(opt(s32(0, val.ty)) =~= seq![]);
}

/// `RegQueryValueEx` tells the type of a value, how many bytes it has, and the bytes where
/// the buffer takes all of them; else that there is more. A value that is not there is an
/// error.
pub proof fn lemma_queries_value(
    v: OsView,
    c: CpuView,
    m: MemView,
    host: HostReply,
    a: Seq<u64>,
    wide: bool,
    name: Seq<char>,
    path: Seq<char>,
    val: ValueView,
)
    requires
        m.wf(),
        given(v, c, m, a),
        a.len() == 6,
        guest_text(m, a[1], wide) == Ok::<Seq<char>, Fault>(name),
        v.reg.resolve(a[0]) == Some(path),
        v.reg.value(path, name) == Some(val),
        val.data.len() <= u32::MAX,
        a[3] == 0,
        a[5] != 0,
        m.can_read(a[5] as int, 4),
        a[5] + 4 <= a[4] || a[4] + val.data.len() <= a[5],
        dispatch_out(v, Api::Bound(Named::RegQuery { wide }), c, m, host).r is Ok,
    ensures
        ({
            let o = dispatch_out(v, Api::Bound(Named::RegQuery { wide }), c, m, host);
            let room = m.r32(a[5])->Ok_0;
            let n = val.data.len();
            &&& o.os.reg == v.reg
            &&& o.mem.r32(a[5]) == Ok::<u32, Fault>(n as u32)
            &&& a[4] == 0 || n <= room <==> gives(o, 0)
            &&& a[4] != 0 && room < n <==> gives(o, 234)
            &&& a[4] != 0 && n <= room && m.can_read(a[4] as int, n as int) ==> o.mem.read(a[4], n)
                == Ok::<Seq<u8>, Fault>(val.data)
        }),
{
    reveal(crate::reg::query_out);
    bound_reg_query(v, c, m, host, wide);
    lemma_read_2(v, c, m, a, 0, 1);
    lemma_read_3(v, c, m, a, 3, 4, 5);
    lemma_query_reply(v.reg_ctx(), v.wide(), c, m, wide, a, name, path, val);
    lemma_data_told(m, a[4], a[5], val.data);
}

/// `RegQueryValueEx` tells the type of a value also where nothing else is asked for; a value
/// that is not there, or a handle that is open on no key, is an error.
pub proof fn lemma_queries_type(
    v: OsView,
    c: CpuView,
    m: MemView,
    host: HostReply,
    a: Seq<u64>,
    wide: bool,
    name: Seq<char>,
)
    requires
        given(v, c, m, a),
        a.len() == 6,
        guest_text(m, a[1], wide) == Ok::<Seq<char>, Fault>(name),
        a[3] != 0,
        m.can_read(a[3] as int, 4),
        a[5] == 0,
        dispatch_out(v, Api::Bound(Named::RegQuery { wide }), c, m, host).r is Ok,
    ensures
        ({
            let o = dispatch_out(v, Api::Bound(Named::RegQuery { wide }), c, m, host);
            let path = v.reg.resolve(a[0]);
            &&& path is None ==> gives(o, 6)
            &&& path is Some && v.reg.value(path->0, name) is None ==> gives(o, 2)
            &&& path is Some && v.reg.value(path->0, name) is Some ==> gives(o, 0) && o.mem.r32(a[3])
                == Ok::<u32, Fault>(v.reg.value(path->0, name)->0.ty)
        }),
{
    reveal(crate::reg::query_out);
    bound_reg_query(v, c, m, host, wide);
    lemma_read_2(v, c, m, a, 0, 1);
    lemma_read_3(v, c, m, a, 3, 4, 5);
    if v.reg.resolve(a[0]) is Some && v.reg.value(v.reg.resolve(a[0])->0, name) is Some {
        lemma_told(m, a[3], v.reg.value(v.reg.resolve(a[0])->0, name)->0.ty);
    }
}

/// `RegDeleteValue` takes a value that is there away, and no other.
pub proof fn lemma_deletes_value(
    v: OsView,
    c: CpuView,
    m: MemView,
    host: HostReply,
    a: Seq<u64>,
    wide: bool,
    name: Seq<char>,
    path: Seq<char>,
    p: Seq<char>,
    n: Seq<char>,
)
    requires
        given(v, c, m, a),
        a.len() == 2,
        guest_text(m, a[1], wide) == Ok::<Seq<char>, Fault>(name),
        v.reg.resolve(a[0]) == Some(path),
    ensures
        ({
            let o = dispatch_out(v, Api::Bound(Named::RegDeleteValue { wide }), c, m, host);
            &&& v.reg.value(path, name) is Some ==> gives(o, 0)
            &&& v.reg.value(path, name) is None ==> gives(o, 2)
            &&& o.os.reg.value(path, name) is None
            &&& p != path || n != name ==> o.os.reg.value(p, n) == v.reg.value(p, n)
        }),
{
    reveal(crate::reg::delete_value_out);
    bound_reg_delete_value(v, c, m, host, wide);
    lemma_read_2(v, c, m, a, 0, 1);
}

/// `RegDeleteKey` takes a key and all below it away, and no other; `RegCloseKey` takes a
/// handle away, and roots stay.
pub proof fn lemma_deletes_key(
    v: OsView,
    c: CpuView,
    m: MemView,
    host: HostReply,
    a: Seq<u64>,
    ex: bool,
    wide: bool,
    sub: Seq<char>,
    path: Seq<char>,
    k: Seq<char>,
    n: Seq<char>,
    h: u64,
)
    requires
        given(v, c, m, a),
        a.len() == 2,
        guest_text(m, a[1], wide) == Ok::<Seq<char>, Fault>(sub),
        v.reg.join(a[0], sub) == Some(path),
    ensures
        ({
            let o = dispatch_out(v, Api::Bound(Named::RegDeleteKey { ex, wide }), c, m, host);
            let q = dispatch_out(v, Api::Bound(Named::RegClose), c, m, host);
            &&& gives(o, 0)
            &&& !o.os.reg.has_key(path)
            &&& o.os.reg.value(key_join(path, k), n) is None
            &&& !within(k, path) ==> o.os.reg.value(k, n) == v.reg.value(k, n)
            &&& gives(q, 0)
            &&& is_root(a[0]) ==> q.os.reg.resolve(a[0]) == v.reg.resolve(a[0])
            &&& !is_root(a[0]) ==> q.os.reg.resolve(a[0]) is None
            &&& h != a[0] ==> q.os.reg.resolve(h) == v.reg.resolve(h)
            &&& q.os.reg.keys == v.reg.keys
        }),
{
    reveal(crate::reg::delete_key_out);
    bound_reg_delete_key(v, c, m, host, ex, wide);
    bound_reg_close(v, c, m, host);
    lemma_read_2(v, c, m, a, 0, 1);
    lemma_read_1(v, c, m, a, 0);
    let j = key_join(path, k);
    lemma_delete_key(v.reg, path, j);
    lemma_delete_key(v.reg, path, k);
    if k.len() > 0 {
        assert(j.take(path.len() as int + 1) =~= below_path(path));
    }
    assert(within(j, path));
    if is_root(a[0]) {
        lemma_root_names(a[0]);
    }
}

// ---- enumeration ------------------------------------------------------------

/// `RegEnumKeyEx` hands out the names of the keys below a key by their place, and tells when
/// there are no more.
pub proof fn lemma_enumerates_keys(
    v: OsView,
    c: CpuView,
    m: MemView,
    host: HostReply,
    a: Seq<u64>,
    wide: bool,
    path: Seq<char>,
)
    requires
        given(v, c, m, a),
        a.len() == 8,
        v.reg.resolve(a[0]) == Some(path),
    ensures
        ({
            let o = dispatch_out(v, Api::Bound(Named::RegEnumKey { wide }), c, m, host);
            let w = name_reply(m, a[2], a[3], v.reg.subkeys(path)[a[1] as int], wide);
            &&& a[1] >= v.reg.subkeys(path).len() ==> gives(o, 259)
            &&& a[1] < v.reg.subkeys(path).len() && a[7] == 0 && w.r is Ok ==> gives(o, w.r->Ok_0)
                && o.mem == w.mem
            &&& o.os.reg == v.reg
        }),
{
    reveal(crate::reg::enum_key_out);
    bound_reg_enum_key(v, c, m, host, wide);
    lemma_read_list(v, c, m, a, seq![0, 1, 2, 3, 7], seq![a[0], a[1], a[2], a[3], a[7]]);
    assert(opt(s64(0, 0)) =~= seq![]);
}

/// A key brings every key on the way to it: whatever lies below a key, its first part is the
/// name of a key directly below.
pub proof fn lemma_children(r: RegView, path: Seq<char>, part: Seq<char>, rest: Seq<char>)
    requires
        is_listing(r.subkeys(path), child_names(r.keys.dom(), path)),
        forall|i: int| 0 <= i < part.len() ==> (#[trigger] part[i]) != '\\',
        r.keys.contains_key(path + seq!['\\'] + part) || r.keys.contains_key(
            path + seq!['\\'] + part + seq!['\\'] + rest,
        ),
    ensures
        r.subkeys(path).contains(part),
        forall|i: int, j: int|
            0 <= i < j < r.subkeys(path).len() ==> text_before(
                #[trigger] r.subkeys(path)[i],
                #[trigger] r.subkeys(path)[j],
            ),
{
    let k = if r.keys.contains_key(path + seq!['\\'] + part) {
        path + seq!['\\'] + part
    } else {
        path + seq!['\\'] + part + seq!['\\'] + rest
    };
    let t = k.skip(path.len() as int + 1);
    assert(k.take(path.len() as int + 1) =~= below_path(path));
    let p = is_separator();
    if r.keys.contains_key(path + seq!['\\'] + part) {
        assert(t =~= part);
        assert forall|i: int| 0 <= i < t.len() implies !p(#[trigger] t[i]) by {
            assert(part[i] != '\\');
        }
        lemma_first_index_none(t, p);
    } else {
        assert(t =~= part + seq!['\\'] + rest);
        assert forall|i: int| 0 <= i < part.len() implies !p(#[trigger] t[i]) by {
            assert(t[i] == part[i]);
        }
        assert(t[part.len() as int] == '\\');
        lemma_first_index_is(t, p, part.len() as int);
        assert(t.take(part.len() as int) =~= part);
    }
    assert(leads_to(path, k, part));
    assert(r.keys.dom().contains(k));
}

proof fn lemma_one_count(x: RegCtx, is_64bit: bool, c: CpuView, m: MemView, path: Seq<char>, b: Seq<u64>)
    requires
        args_at(is_64bit, c, m, seq![0, 4, 5, 7, 8, 9, 11]) == Ok::<Seq<u64>, Fault>(b),
        x.reg.resolve(b[0]) == Some(path),
        b.len() == 7,
        b[1] != 0,
        b[2] == 0,
        b[3] == 0,
        b[4] == 0,
        b[5] == 0,
        b[6] == 0,
        m.can_read(b[1] as int, 4),
        query_info_out(x, is_64bit, c, m).reply.r is Ok,
    ensures
        query_info_out(x, is_64bit, c, m).reply.r == Ok::<u64, Fault>(0),
        query_info_out(x, is_64bit, c, m).reply.mem.r32(b[1]) == Ok::<u32, Fault>(
            x.reg.subkeys(path).len() as u32,
        ),
{
    reveal(crate::reg::query_info_out);
    let n = x.reg.subkeys(path).len() as u32;
    assert(info_table(x.reg, path, b) =~= opt(s32(b[1], n)));
    lemma_told(m, b[1], n);
}

/// `RegQueryInfoKey` tells how many keys lie below a key.
pub proof fn lemma_counts_keys(
    v: OsView,
    c: CpuView,
    m: MemView,
    host: HostReply,
    a: Seq<u64>,
    path: Seq<char>,
)
    requires
        given(v, c, m, a),
        a.len() == 12,
        v.reg.resolve(a[0]) == Some(path),
        a[4] != 0,
        a[5] == 0,
        a[7] == 0,
        a[8] == 0,
        a[9] == 0,
        a[11] == 0,
        m.can_read(a[4] as int, 4),
        dispatch_out(v, Api::Bound(Named::RegQueryInfo), c, m, host).r is Ok,
    ensures
        gives(dispatch_out(v, Api::Bound(Named::RegQueryInfo), c, m, host), 0),
        dispatch_out(v, Api::Bound(Named::RegQueryInfo), c, m, host).mem.r32(a[4]) == Ok::<
            u32,
            Fault,
        >(v.reg.subkeys(path).len() as u32),
{
    reveal(crate::reg::query_info_out);
    bound_reg_query_info(v, c, m, host);
    let b = lemma_info_args(v, c, m, a);
    lemma_one_count(v.reg_ctx(), v.wide(), c, m, path, b);
}

proof fn lemma_info_args(v: OsView, c: CpuView, m: MemView, a: Seq<u64>) -> (b: Seq<u64>)
    requires
        given(v, c, m, a),
        a.len() == 12,
    ensures
        b == seq![a[0], a[4], a[5], a[7], a[8], a[9], a[11]],
        args_at(v.wide(), c, m, seq![0, 4, 5, 7, 8, 9, 11]) == Ok::<Seq<u64>, Fault>(b),
{
    let b = seq![a[0], a[4], a[5], a[7], a[8], a[9], a[11]];
    lemma_read_list(v, c, m, a, seq![0, 4, 5, 7, 8, 9, 11], b);
    b
}

/// Where the parts of a path that starts with a plain part lie.
proof fn lemma_parted(head: Seq<char>, rest: Seq<char>)
    requires
        forall|i: int| 0 <= i < head.len() ==> #[trigger] head[i] != '\\',
    ensures
        first_part(head + seq!['\\'] + rest) == head,
        after_part(head + seq!['\\'] + rest) == Some(rest),
{
    let s = head + seq!['\\'] + rest;
    assert forall|i: int| 0 <= i < head.len() implies !is_separator()(#[trigger] s[i]) by {
        assert(s[i] == head[i]);
    }
    assert(s[head.len() as int] == '\\');
    lemma_first_index_is(s, is_separator(), head.len() as int);
    assert(s.take(head.len() as int) =~= head);
    assert(s.skip(head.len() as int + 1) =~= rest);
}

/// The absolute paths of the native services name the keys that the predefined handles name:
/// below `\Registry\Machine` lies what lies below 0x80000002, below `\Registry\User` what
/// lies below 0x80000003.
pub proof fn lemma_native_paths(r: RegView, rest: Seq<char>)
    ensures
        hive_path("\\Registry\\Machine\\"@ + rest) == r.join(0x8000_0002, rest),
        hive_path("\\Registry\\User\\"@ + rest) == r.join(0x8000_0003, rest),
{
    reveal_strlit("\\Registry\\Machine\\");
    reveal_strlit("\\Registry\\User\\");
    reveal_strlit("Machine");
    reveal_strlit("User");
    let reg = seq!['\\', 'R', 'e', 'g', 'i', 's', 't', 'r', 'y', '\\'];
    let p = "\\Registry\\Machine\\"@ + rest;
    let q = "\\Registry\\User\\"@ + rest;
    assert(p =~= reg + "Machine"@ + seq!['\\'] + rest);
    assert(q =~= reg + "User"@ + seq!['\\'] + rest);
    lemma_native_path(rest, "Machine"@, p);
    lemma_native_path(rest, "User"@, q);
    assert("Machine"@ != "User"@);
    lemma_root_names(0x8000_0002);
    lemma_root_names(0x8000_0003);
}

proof fn lemma_native_path(rest: Seq<char>, root: Seq<char>, path: Seq<char>)
    requires
        root == "Machine"@ || root == "User"@,
        path == seq!['\\', 'R', 'e', 'g', 'i', 's', 't', 'r', 'y', '\\'] + root + seq!['\\'] + rest,
    ensures
        root == "Machine"@ ==> hive_path(path) == Some(
            key_join(seq!['H', 'K', 'L', 'M'], rest),
        ),
        root == "User"@ ==> hive_path(path) == Some(key_join(seq!['H', 'K', 'U'], rest)),
{
    reveal_strlit("Registry");
    reveal_strlit("Machine");
    reveal_strlit("User");
    reveal_strlit("HKLM");
    reveal_strlit("HKU");
    let reg = "Registry"@;
    let u = root + seq!['\\'] + rest;
    let t = reg + seq!['\\'] + u;
    assert(reg =~= seq!['R', 'e', 'g', 'i', 's', 't', 'r', 'y']);
    assert("Machine"@ =~= seq!['M', 'a', 'c', 'h', 'i', 'n', 'e']);
    assert("User"@ =~= seq!['U', 's', 'e', 'r']);
    assert("HKLM"@ =~= seq!['H', 'K', 'L', 'M']);
    assert("HKU"@ =~= seq!['H', 'K', 'U']);
    assert(path.drop_first() =~= t);
    assert(path[0] == '\\');
    assert(t[0] == 'R');
    assert(trimmed(t) == t);
    assert(trimmed(path) == t);
    lemma_parted(reg, u);
    lemma_parted(root, rest);
    if root == "User"@ {
        assert(lower_text(root).len() == 4);
        assert(lower_text("Machine"@).len() == 7);
    }
}

} // verus!
