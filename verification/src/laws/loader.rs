//! Libraries: where they are, what they export, and what is bound to it.

use vstd::prelude::*;

use crate::api::{symbol_text, Api};
use crate::config::WinConfig;
use crate::cpu::CpuView;
use crate::dispatch::dispatch_out;
use crate::gstr::narrow_text;
use crate::host::HostReply;
use crate::laws::{given, gives, lemma_read_2};
use crate::laws::served::{
    serves_get_module_handle_a, serves_get_proc_address, serves_load_library_a,
};
use crate::ldr::add_module_out;
use crate::loader::{
    code_named, export_named, export_numbered, is_emulated, is_mapped, ExportView, LoaderView,
};
use crate::mem::{
    ga, lemma_block_read_back, lemma_le_bytes_len, lemma_le_round_trip, lemma_pow256, lemma_put_get,
    lemma_put_other, lemma_put_shape, sptr, Block, Fault, MemView,
};
use crate::os::{entry_calls, OsView, DLL_PROCESS_ATTACH, DLL_PROCESS_DETACH};
use crate::plugin::{
    bound, fresh_module, guest_code, image_blocks, import_target, relocated_out, resolved_out,
    LoadView, PeImportView,
};
use crate::process::library_name;
use crate::section::ImageSectionView;
use crate::thunk::{lemma_import_run, Ask, ThunkView};
use crate::util::{first_index, lemma_first_index_is, lemma_first_index_none};

verus! {

// ---- symbols ----------------------------------------------------------------

/// Whether export `i` of an image is the first of its name.
pub open spec fn exports_name(e: Seq<ExportView>, i: int, name: Seq<char>) -> bool {
    &&& 0 <= i < e.len()
    &&& e[i].name == Some(name)
    &&& forall|j: int| 0 <= j < i ==> (#[trigger] e[j]).name != Some(name)
}

/// Whether export `i` of an image is the first of its number.
pub open spec fn exports_number(e: Seq<ExportView>, i: int, n: u64) -> bool {
    &&& 0 <= i < e.len()
    &&& e[i].ordinal == n
    &&& forall|j: int| 0 <= j < i ==> (#[trigger] e[j]).ordinal != n
}

/// `GetProcAddress` on a loaded image answers with the address of the export: as far behind
/// where the image was loaded as the export lies in it, by name or by number; and with 0 for
/// what the image does not export. Nothing else changes.
pub proof fn lemma_looks_up_export(
    v: OsView,
    c: CpuView,
    m: MemView,
    host: HostReply,
    a: Seq<u64>,
    name: Seq<char>,
    i: int,
)
    requires
        given(v, c, m, a),
        a.len() == 2,
        v.dll.exports.contains_key(a[0]),
        a[1] >= 0x1_0000 ==> narrow_text(m, a[1]) == Ok::<Seq<char>, Fault>(name),
        0 <= i < v.dll.exports[a[0]].len() ==> a[0] + v.dll.exports[a[0]][i].rva <= u64::MAX,
    ensures
        ({
            let o = dispatch_out(v, Api::GetProcAddress, c, m, host);
            let e = v.dll.exports[a[0]];
            &&& a[1] >= 0x1_0000 && exports_name(e, i, name) ==> gives(o, (a[0] + e[i].rva) as u64)
            &&& a[1] < 0x1_0000 && exports_number(e, i, a[1]) ==> gives(
                o,
                (a[0] + e[i].rva) as u64,
            )
            &&& a[1] >= 0x1_0000 && (forall|j: int|
                0 <= j < e.len() ==> (#[trigger] e[j]).name != Some(name)) ==> gives(o, 0)
            &&& a[1] < 0x1_0000 && (forall|j: int|
                0 <= j < e.len() ==> (#[trigger] e[j]).ordinal != a[1]) ==> gives(o, 0)
            &&& o.mem == m
            &&& o.os == v
        }),
{
    reveal(crate::process::get_proc_out);
    serves_get_proc_address(v, c, m, host);
    lemma_read_2(v, c, m, a, 0, 1);
    let e = v.dll.exports[a[0]];
    let p = export_named(name);
    let q = export_numbered(a[1]);
    if exports_name(e, i, name) {
        lemma_first_index_is(e, p, i);
    }
    if exports_number(e, i, a[1]) {
        lemma_first_index_is(e, q, i);
    }
    if forall|j: int| 0 <= j < e.len() ==> (#[trigger] e[j]).name != Some(name) {
        lemma_first_index_none(e, p);
    }
    if forall|j: int| 0 <= j < e.len() ==> (#[trigger] e[j]).ordinal != a[1] {
        lemma_first_index_none(e, q);
    }
}

/// An image that a load mapped is known by its name from then on, at the address that its
/// parts were relocated to: its headers lie there, and each part as far behind as it says.
pub proof fn lemma_maps_image(
    dll: LoaderView,
    m: MemView,
    t: ThunkView,
    s: LoadView,
    parts: Seq<ImageSectionView>,
    k: int,
)
    requires
        s.asked is Relocate,
        relocated_out(dll, m, t, s, Some(parts)).r is Ok,
        0 <= k < parts.len(),
        s.asked->base + parts[k].rva + parts[k].data.len() <= u64::MAX,
        m.can_read(s.asked->base + parts[k].rva, parts[k].data.len() as int),
        forall|j: int|
            k < j < parts.len() ==> s.asked->base + (#[trigger] parts[j]).rva <= u64::MAX && (
            parts[j].rva + parts[j].data.len() <= parts[k].rva || parts[k].rva
                + parts[k].data.len() <= parts[j].rva),
    ensures
        ({
            let o = relocated_out(dll, m, t, s, Some(parts));
            let base = s.asked->base;
            let name = s.asked->Relocate_name;
            &&& o.dll.by_name.contains_key(name)
            &&& o.dll.by_name[name] == base
            &&& o.dll.exports.contains_key(base)
            &&& o.dll.exports[base] == s.asked->image.exports
            &&& o.mem.read((base + parts[k].rva) as u64, parts[k].data.len()) == Ok::<
                Seq<u8>,
                Fault,
            >(parts[k].data)
        }),
{
    let base = s.asked->base;
    let b = image_blocks(base, s.asked->image.headers, parts);
    assert(b[k + 1] == (Block { addr: ga(base, parts[k].rva as int), data: parts[k].data }));
    assert(ga(base, parts[k].rva as int) == base + parts[k].rva);
    assert forall|j: int| k + 1 < j < b.len() implies (#[trigger] b[j]).addr + b[j].data.len()
        <= b[k + 1].addr || b[k + 1].addr + b[k + 1].data.len() <= b[j].addr by {
        let x = parts[j - 1];
        assert(b[j] == (Block { addr: ga(base, x.rva as int), data: x.data }));
        assert(ga(base, x.rva as int) == base + x.rva);
    }
    lemma_block_read_back(m, b, k + 1);
}

/// A symbol of an image that a load left at an address: looking it up there answers with that
/// address and how far behind it the export lies; and the code that an import of it is bound
/// to is the same.
pub proof fn lemma_loaded_symbol(
    dll: LoaderView,
    m0: MemView,
    t: ThunkView,
    s: LoadView,
    parts: Seq<ImageSectionView>,
    v: OsView,
    c: CpuView,
    m: MemView,
    host: HostReply,
    p: u64,
    symbol: Seq<char>,
    i: int,
)
    requires
        s.asked is Relocate,
        relocated_out(dll, m0, t, s, Some(parts)).r is Ok,
        v.dll == relocated_out(dll, m0, t, s, Some(parts)).dll,
        given(v, c, m, seq![s.asked->base, p]),
        p >= 0x1_0000,
        narrow_text(m, p) == Ok::<Seq<char>, Fault>(symbol),
        exports_name(s.asked->image.exports, i, symbol),
        s.asked->image.exports[i].forwarder is None,
        s.asked->base + s.asked->image.exports[i].rva <= u64::MAX,
    ensures
        ({
            let want = s.asked->base + s.asked->image.exports[i].rva;
            &&& gives(dispatch_out(v, Api::GetProcAddress, c, m, host), want as u64)
            &&& v.dll.code_of(s.asked->Relocate_name, symbol) == Some(want)
        }),
{
    let a = seq![s.asked->base, p];
    assert(a[0] == s.asked->base && a[1] == p);
    lemma_looks_up_export(v, c, m, host, a, symbol, i);
    let e = s.asked->image.exports;
    assert forall|j: int| 0 <= j < i implies !code_named(symbol)(#[trigger] e[j]) by {
        assert(e[j].name != Some(symbol));
    }
    lemma_first_index_is(e, code_named(symbol), i);
}

/// The address that binding finds for an import.
pub open spec fn import_address(
    is_64bit: bool,
    t: ThunkView,
    m: MemView,
    base: u64,
    imports: Seq<PeImportView>,
    guest: Seq<Option<u64>>,
    j: int,
) -> u64 {
    import_target(
        bound(is_64bit, t, m, base, imports, guest, j as nat).thunks,
        imports[j],
        guest_code(guest, j),
    )
}

/// What binding writes stays in the slots of the table.
proof fn lemma_binds(
    is_64bit: bool,
    t: ThunkView,
    m: MemView,
    base: u64,
    imports: Seq<PeImportView>,
    guest: Seq<Option<u64>>,
    n: nat,
    j: int,
)
    requires
        n <= imports.len(),
        0 <= j < n,
        bound(is_64bit, t, m, base, imports, guest, n).fault is None,
        forall|i: int|
            0 <= i < n ==> base + (#[trigger] imports[i]).iat_rva + 8 <= u64::MAX,
        forall|i: int|
            j < i < n ==> (#[trigger] imports[i]).iat_rva + 8 <= imports[j].iat_rva
                || imports[j].iat_rva + 8 <= imports[i].iat_rva,
        m.can_read(base + imports[j].iat_rva, 4),
        is_64bit ==> m.can_read(base + imports[j].iat_rva, 8),
        !is_64bit ==> import_address(is_64bit, t, m, base, imports, guest, j) <= u32::MAX,
    ensures
        bound(is_64bit, t, m, base, imports, guest, n).mem.rptr(
            is_64bit,
            (base + imports[j].iat_rva) as u64,
        ) == Ok::<u64, Fault>(
            import_address(is_64bit, t, m, base, imports, guest, j),
        ),
        forall|x: int, k: int| #[trigger]
            bound(is_64bit, t, m, base, imports, guest, n).mem.can_read(x, k) == m.can_read(x, k),
    decreases n,
{
    let k = (n - 1) as nat;
    let b = bound(is_64bit, t, m, base, imports, guest, k);
    lemma_bound_shape(is_64bit, t, m, base, imports, guest, k);
    let i = imports[k as int];
    let code = guest_code(guest, k as int);
    let st = sptr(is_64bit, ga(base, i.iat_rva as int), import_target(b.thunks, i, code));
    assert(ga(base, i.iat_rva as int) == base + i.iat_rva);
    lemma_pow256();
    lemma_le_bytes_len(st.value as nat, st.size as nat);
    lemma_put_shape(b.mem, st.addr as int, st.bytes());
    let at = base + imports[j].iat_rva;
    let size = if is_64bit {
        8int
    } else {
        4
    };
    assert(b.mem.can_read(at, size));
    if j == k {
        lemma_put_get(b.mem, st.addr as int, st.bytes());
        lemma_le_round_trip(st.value as nat, st.size as nat);
        assert(b.mem.put(st.addr as int, st.bytes()).can_read(at, size));
    } else {
        lemma_binds(is_64bit, t, m, base, imports, guest, k, j);
        lemma_put_other(b.mem, st.addr as int, st.bytes(), at, size);
        assert(b.mem.put(st.addr as int, st.bytes()).can_read(at, size));
    }
}

/// Binding the imports of an image puts into each slot of its table the guest code behind the
/// import, where there is any.
pub proof fn lemma_binds_slot(
    is_64bit: bool,
    t: ThunkView,
    m: MemView,
    base: u64,
    imports: Seq<PeImportView>,
    guest: Seq<Option<u64>>,
    n: nat,
    j: int,
)
    requires
        n <= imports.len(),
        0 <= j < n,
        bound(is_64bit, t, m, base, imports, guest, n).fault is None,
        forall|i: int|
            0 <= i < n ==> base + (#[trigger] imports[i]).iat_rva + 8 <= u64::MAX,
        forall|i: int|
            j < i < n ==> (#[trigger] imports[i]).iat_rva + 8 <= imports[j].iat_rva
                || imports[j].iat_rva + 8 <= imports[i].iat_rva,
        m.can_read(base + imports[j].iat_rva, 4),
        is_64bit ==> m.can_read(base + imports[j].iat_rva, 8),
        j < guest.len(),
        guest[j] is Some,
        !is_64bit ==> guest[j]->0 <= u32::MAX,
    ensures
        bound(is_64bit, t, m, base, imports, guest, n).mem.rptr(
            is_64bit,
            (base + imports[j].iat_rva) as u64,
        ) == Ok::<u64, Fault>(guest[j]->0),
{
    lemma_binds(is_64bit, t, m, base, imports, guest, n, j);
}

/// The symbols that the first imports ask for where no guest code stands behind them.
pub open spec fn asked(imports: Seq<PeImportView>, guest: Seq<Option<u64>>, n: nat) -> Seq<Ask>
    decreases n,
{
    if n == 0 {
        Seq::empty()
    } else if guest_code(guest, n - 1) is Some {
        asked(imports, guest, (n - 1) as nat)
    } else {
        let i = imports[n - 1];
        asked(imports, guest, (n - 1) as nat).push(Ask { dll: i.dll, host: i.host, name: i.symbol })
    }
}

proof fn lemma_asked(
    is_64bit: bool,
    t: ThunkView,
    m: MemView,
    base: u64,
    imports: Seq<PeImportView>,
    guest: Seq<Option<u64>>,
    n: nat,
    j: int,
)
    requires
        n <= imports.len(),
        0 <= j <= n,
        bound(is_64bit, t, m, base, imports, guest, n).fault is None,
    ensures
        ({
            let s = asked(imports, guest, n);
            let k = asked(imports, guest, j as nat);
            &&& bound(is_64bit, t, m, base, imports, guest, n).thunks == t.after(s)
            &&& bound(is_64bit, t, m, base, imports, guest, j as nat).thunks == t.after(k)
            &&& s.len() <= n
            &&& k.len() <= s.len()
            &&& s.take(k.len() as int) == k
            &&& j < n && guest_code(guest, j) is None ==> k.len() < s.len() && s[k.len() as int]
                == (Ask { dll: imports[j].dll, host: imports[j].host, name: imports[j].symbol })
        }),
    decreases n,
{
    let s = asked(imports, guest, n);
    if n == 0 {
        assert(s.take(0) =~= s);
    } else {
        let p = (n - 1) as nat;
        let d = asked(imports, guest, p);
        lemma_asked(is_64bit, t, m, base, imports, guest, p, if j < n { j } else { p as int });
        if guest_code(guest, p as int) is None {
            assert(s.drop_last() =~= d);
            assert(s.last() == s[d.len() as int]);
        }
        if j == n {
            assert(s.take(s.len() as int) =~= s);
        } else {
            let k = asked(imports, guest, j as nat);
            assert(s.take(k.len() as int) =~= d.take(k.len() as int));
        }
    }
}

/// Binding the imports of an image puts into each slot behind which there is no guest code a
/// thunk that stands for the symbol of the library.
pub proof fn lemma_binds_thunk(
    is_64bit: bool,
    t: ThunkView,
    m: MemView,
    base: u64,
    imports: Seq<PeImportView>,
    guest: Seq<Option<u64>>,
    n: nat,
    j: int,
)
    requires
        n <= imports.len(),
        0 <= j < n,
        bound(is_64bit, t, m, base, imports, guest, n).fault is None,
        forall|i: int|
            0 <= i < n ==> base + (#[trigger] imports[i]).iat_rva + 8 <= u64::MAX,
        forall|i: int|
            j < i < n ==> (#[trigger] imports[i]).iat_rva + 8 <= imports[j].iat_rva
                || imports[j].iat_rva + 8 <= imports[i].iat_rva,
        m.can_read(base + imports[j].iat_rva, 4),
        is_64bit ==> m.can_read(base + imports[j].iat_rva, 8),
        guest_code(guest, j) is None,
        t.wf(),
        t.has_room(n as int),
        is_64bit,
    ensures
        ({
            let b = bound(is_64bit, t, m, base, imports, guest, n);
            let i = imports[j];
            let r = b.mem.rptr(is_64bit, (base + i.iat_rva) as u64);
            &&& r is Ok
            &&& b.thunks.is_thunk(r->Ok_0)
            &&& i.host is None ==> b.thunks.symbol_at(r->Ok_0) == Some(
                symbol_text(i.dll, i.symbol),
            )
            &&& i.host is Some ==> b.thunks.symbol_at(r->Ok_0) == Some(
                symbol_text(i.host->0, i.symbol),
            )
        }),
{
    lemma_binds(is_64bit, t, m, base, imports, guest, n, j);
    lemma_asked(is_64bit, t, m, base, imports, guest, n, j);
    let s = asked(imports, guest, n);
    let k = asked(imports, guest, j as nat).len() as int;
    lemma_import_run(t, s, k, k);
}

proof fn lemma_bound_shape(
    is_64bit: bool,
    t: ThunkView,
    m: MemView,
    base: u64,
    imports: Seq<PeImportView>,
    guest: Seq<Option<u64>>,
    n: nat,
)
    ensures
        forall|x: int, k: int| #[trigger]
            bound(is_64bit, t, m, base, imports, guest, n).mem.can_read(x, k) == m.can_read(x, k),
    decreases n,
{
    if n > 0 {
        let k = (n - 1) as nat;
        let b = bound(is_64bit, t, m, base, imports, guest, k);
        lemma_bound_shape(is_64bit, t, m, base, imports, guest, k);
        if b.fault is None {
            let i = imports[k as int];
            let st = sptr(
                is_64bit,
                ga(base, i.iat_rva as int),
                import_target(b.thunks, i, guest_code(guest, k as int)),
            );
            if b.mem.can_write(st.addr as int, st.bytes().len() as int) {
                lemma_put_shape(b.mem, st.addr as int, st.bytes());
            }
        }
    }
}

/// `GetProcAddress` on an emulated library answers with a thunk that stands for the symbol of
/// that library.
pub proof fn lemma_looks_up_emulated(
    v: OsView,
    c: CpuView,
    m: MemView,
    host: HostReply,
    a: Seq<u64>,
    name: Seq<char>,
    x: u64,
)
    requires
        v.thunks.wf(),
        v.thunks.has_room(1),
        given(v, c, m, a),
        a.len() == 2,
        !v.dll.exports.contains_key(a[0]),
        v.dll.system.contains_key(a[0]),
        a[1] >= 0x1_0000,
        narrow_text(m, a[1]) == Ok::<Seq<char>, Fault>(name),
        name.len() > 0,
        gives(dispatch_out(v, Api::GetProcAddress, c, m, host), x),
    ensures
        ({
            let o = dispatch_out(v, Api::GetProcAddress, c, m, host);
            &&& o.os.thunks.is_thunk(x)
            &&& o.os.thunks.symbol_at(x) == Some(symbol_text(v.dll.system[a[0]], name))
        }),
{
    reveal(crate::process::get_proc_out);
    serves_get_proc_address(v, c, m, host);
    lemma_read_2(v, c, m, a, 0, 1);
    let lib = v.dll.system[a[0]];
    let ask = Ask { dll: lib, host: None, name };
    let asks = seq![ask];
    lemma_import_run(v.thunks, asks, 0, 0);
    assert(asks.drop_last() =~= seq![]);
    assert(asks.take(0) =~= seq![]);
    assert(asks.last() == ask && asks[0] == ask);
    reveal_with_fuel(ThunkView::after, 2);
}

// ---- libraries --------------------------------------------------------------

/// `GetModuleHandle` and `LoadLibrary` on a library that is known answer with where it is;
/// loading holds it once more. Without a name both mean the program itself.
pub proof fn lemma_known_library(
    v: OsView,
    c: CpuView,
    m: MemView,
    host: HostReply,
    p: u64,
    path: Seq<char>,
)
    requires
        given(v, c, m, seq![p]),
        p != 0 ==> narrow_text(m, p) == Ok::<Seq<char>, Fault>(path),
        p != 0 ==> path.len() > 0,
        host.spec_loaded() is None,
    ensures
        ({
            let g = dispatch_out(v, Api::GetModuleHandleA, c, m, host);
            let l = dispatch_out(v, Api::LoadLibraryA, c, m, host);
            let name = library_name(path, host.spec_host());
            &&& p == 0 ==> gives(g, v.cfg.image_base) && gives(l, v.cfg.image_base)
            &&& p != 0 && v.dll.by_name.contains_key(name) ==> gives(g, v.dll.by_name[name])
                && gives(l, v.dll.by_name[name]) && g.os == v
            &&& p != 0 && !v.dll.by_name.contains_key(name) && !is_emulated(name) ==> gives(g, 0)
                && gives(l, 0)
        }),
{
    reveal(crate::process::load_library_out);
    reveal(crate::process::module_handle_out);
    serves_get_module_handle_a(v, c, m, host);
    serves_load_library_a(v, c, m, host);
    assert(seq![p][0] == p);
}

/// Each holder of an image counts: what a load holds once more, one release gives back, and
/// the entry point is told of the end only when the last holder is gone.
pub proof fn lemma_holders(dll: LoaderView, image_base: u64, i: int)
    requires
        0 <= i < dll.modules.len(),
        first_index(dll.modules, is_mapped(dll.modules[i].base)) == Some(i),
        dll.modules[i].base != image_base,
        0 < dll.modules[i].ref_count,
    ensures
        ({
            let x = dll.modules[i];
            let g = dll.released(image_base, x.base);
            let y = g.dll.modules[i];
            &&& g.ok
            &&& y.ref_count == x.ref_count - 1
            &&& y.base == x.base && y.entry == x.entry && y.name == x.name
            &&& g.dll.by_name == dll.by_name
            &&& g.dll.pending_detach == if x.ref_count == 1 && x.attached && x.entry != 0 {
                dll.pending_detach.push((x.entry, x.base))
            } else {
                dll.pending_detach
            }
        }),
{
}

/// The entry points of libraries are told of the process, of each in order: where it lies,
/// that it comes (1) or goes (0), and nothing else.
pub proof fn lemma_entry_told(targets: Seq<(u64, u64)>, i: int)
    requires
        0 <= i < targets.len(),
    ensures
        entry_calls(targets, DLL_PROCESS_ATTACH).len() == targets.len(),
        entry_calls(targets, DLL_PROCESS_ATTACH)[i].func == targets[i].0,
        entry_calls(targets, DLL_PROCESS_ATTACH)[i].args == seq![targets[i].1, 1, 0],
        entry_calls(targets, DLL_PROCESS_DETACH)[i].func == targets[i].0,
        entry_calls(targets, DLL_PROCESS_DETACH)[i].args == seq![targets[i].1, 0, 0],
{
}

/// An image that is listed has its entry point as far behind its address as it says; an image
/// without one has none, and is not told.
pub proof fn lemma_entry_queued(
    cfg: WinConfig,
    dll: LoaderView,
    m: MemView,
    t: ThunkView,
    s: LoadView,
    guest: Seq<Option<u64>>,
)
    requires
        s.frames.len() > 0,
        resolved_out(cfg, dll, m, t, s, guest, true).r is Ok,
        s.frames.last().base + s.frames.last().entry_rva <= u64::MAX,
        s.frames.last().base > 0,
    ensures
        ({
            let o = resolved_out(cfg, dll, m, t, s, guest, true);
            let f = s.frames.last();
            &&& f.entry_rva == 0 ==> o.dll.pending_attach == dll.pending_attach
            &&& f.entry_rva != 0 ==> o.dll.pending_attach == dll.pending_attach.push(
                ((f.base + f.entry_rva) as u64, f.base),
            )
        }),
{
    let f = s.frames.last();
    let b = bound(cfg.is_64bit, t, m, f.base, f.imports, guest, f.imports.len());
    let module = fresh_module(f);
    let d = LoaderView { modules: dll.modules.push(module), ..dll };
    let a = add_module_out(cfg, d, b.mem, dll.modules.len() as int);
}

} // verus!
