//! Loading an image and everything it needs: which file is wanted next, where it
//! goes, what its imports are bound to, and in which order the entry points run.
//!
//! Reading and relocating files is the host's part. It is asked for one step at a
//! time, and each answer leads to the next question.

use vstd::prelude::*;

use crate::call::{answer, faulted, Reply};
use crate::config::WinConfig;
use crate::gstr::{narrow_text, read_astr};
use crate::ldr::add_module_out;
use crate::loader::{
    canonical_name, emulated, export_named, export_numbered, export_views, find_named,
    find_numbered, host_name, is_emulated, string_view, Export, ExportView, Loader, LoaderView,
    Module, ModuleView,
};
use crate::mem::{
    at, fault_result, ga, piece_blocks, sptr, store_ptr, write_blocks, write_pieces, Block, Fault,
    MemView, Piece, VirtualMemory,
};
use crate::path::string_views;
use crate::section::{part_views, ImageSection, ImageSectionView};
use crate::text::{chars_of, numeral, str_eq, string_of};
use crate::thunk::{ImportSymbol, ThunkTable, ThunkView};
use crate::util::first_index;

verus! {

broadcast use vstd::std_specs::hash::group_hash_axioms;

// ---- images -----------------------------------------------------------------

/// A symbol that an image imports, and where its address goes.
pub struct PeImport {
    pub dll: String,
    /// The library that serves `dll`, where that is a contract.
    pub host: Option<String>,
    pub symbol: ImportSymbol,
    pub iat_rva: u32,
}

/// An import as mathematics.
pub struct PeImportView {
    pub dll: Seq<char>,
    pub host: Option<Seq<char>>,
    pub symbol: Seq<char>,
    pub iat_rva: u32,
}

impl View for PeImport {
    type V = PeImportView;

    open spec fn view(&self) -> PeImportView {
        PeImportView {
            dll: self.dll@,
            host: string_view(self.host),
            symbol: self.symbol.text(),
            iat_rva: self.iat_rva,
        }
    }
}

/// The views of some imports.
pub open spec fn pe_import_views(s: Seq<PeImport>) -> Seq<PeImportView> {
    Seq::new(s.len(), |i: int| s[i]@)
}

/// What is known of an image before it is placed.
pub struct PeImage {
    pub size_of_image: u32,
    /// Where its entry point lies; 0 for none.
    pub entry_rva: u32,
    pub headers: Vec<u8>,
    pub imports: Vec<PeImport>,
    pub exports: Vec<Export>,
}

/// What is known of an image, as mathematics.
pub struct PeView {
    pub size_of_image: u32,
    pub entry_rva: u32,
    pub headers: Seq<u8>,
    pub imports: Seq<PeImportView>,
    pub exports: Seq<ExportView>,
}

impl View for PeImage {
    type V = PeView;

    open spec fn view(&self) -> PeView {
        PeView {
            size_of_image: self.size_of_image,
            entry_rva: self.entry_rva,
            headers: self.headers@,
            imports: pe_import_views(self.imports@),
            exports: export_views(self.exports@),
        }
    }
}

// ---- steps ------------------------------------------------------------------

/// An image that is mapped and waits for what it needs.
pub struct LoadFrame {
    pub name: String,
    pub full_path: String,
    pub base: u64,
    pub size: u32,
    pub entry_rva: u32,
    pub imports: Vec<PeImport>,
    /// The libraries that it needs and that were not yet asked for.
    pub deps: Vec<String>,
}

/// An image that waits, as mathematics.
#[verifier::ext_equal]
pub struct FrameView {
    pub name: Seq<char>,
    pub full_path: Seq<char>,
    pub base: u64,
    pub size: u32,
    pub entry_rva: u32,
    pub imports: Seq<PeImportView>,
    pub deps: Seq<Seq<char>>,
}

impl View for LoadFrame {
    type V = FrameView;

    open spec fn view(&self) -> FrameView {
        FrameView {
            name: self.name@,
            full_path: self.full_path@,
            base: self.base,
            size: self.size,
            entry_rva: self.entry_rva,
            imports: pe_import_views(self.imports@),
            deps: string_views(self.deps@),
        }
    }
}

/// The views of some frames.
pub open spec fn load_views(s: Seq<LoadFrame>) -> Seq<FrameView> {
    Seq::new(s.len(), |i: int| s[i]@)
}

/// What the host is asked for.
pub enum Asked {
    /// The file of a library, by the path it was asked for under and its name.
    Find { path: String, name: String },
    /// The parts of the file found last, relocated to where it goes.
    Relocate { name: String, full_path: String, base: u64, image: PeImage },
    /// The guest code behind each import of the image on top, as far as a loaded
    /// image exports it.
    Resolve,
    /// Nothing: the load is over, with the address of the image where it was
    /// loaded.
    Finished(Option<u64>),
}

/// What the host is asked for, as mathematics.
pub enum AskedView {
    Find { path: Seq<char>, name: Seq<char> },
    Relocate { name: Seq<char>, full_path: Seq<char>, base: u64, image: PeView },
    Resolve,
    Finished(Option<u64>),
}

impl View for Asked {
    type V = AskedView;

    open spec fn view(&self) -> AskedView {
        match *self {
            Asked::Find { path, name } => AskedView::Find { path: path@, name: name@ },
            Asked::Relocate { name, full_path, base, image } => AskedView::Relocate {
                name: name@,
                full_path: full_path@,
                base,
                image: image@,
            },
            Asked::Resolve => AskedView::Resolve,
            Asked::Finished(r) => AskedView::Finished(r),
        }
    }
}

/// A load in progress.
pub struct PluginLoad {
    /// The images that wait, each for the one above it.
    pub frames: Vec<LoadFrame>,
    pub asked: Asked,
    /// Whether the image is of the core set: its libraries are loaded before it,
    /// by whoever loads the set.
    pub core: bool,
}

/// A load in progress as mathematics.
#[verifier::ext_equal]
pub struct LoadView {
    pub frames: Seq<FrameView>,
    pub asked: AskedView,
    pub core: bool,
}

impl View for PluginLoad {
    type V = LoadView;

    open spec fn view(&self) -> LoadView {
        LoadView { frames: load_views(self.frames@), asked: self.asked@, core: self.core }
    }
}

impl LoadView {
    /// An image is resolved only once everything it needs was asked for.
    pub open spec fn wf(self) -> bool {
        self.asked is Resolve ==> self.frames.len() > 0 && self.frames.last().deps.len() == 0
    }
}

/// Whether a library is loaded, or being loaded.
pub open spec fn is_present(dll: LoaderView, name: Seq<char>) -> bool {
    dll.by_name.contains_key(name) || dll.loading.contains(name)
}

/// What remains of a list of needed libraries once those that are there are left out
/// at its head.
pub open spec fn wanted(dll: LoaderView, deps: Seq<Seq<char>>) -> Seq<Seq<char>>
    decreases deps.len(),
{
    if deps.len() > 0 && is_present(dll, deps[0]) {
        wanted(dll, deps.skip(1))
    } else {
        deps
    }
}

/// What the image on top asks for: its next library that is not there yet, or its
/// imports.
pub open spec fn top_asks(dll: LoaderView, frames: Seq<FrameView>, core: bool) -> LoadView {
    let f = frames.last();
    let w = wanted(dll, f.deps);
    let rest = frames.drop_last();
    if w.len() == 0 {
        LoadView {
            frames: rest.push(FrameView { deps: Seq::empty(), ..f }),
            asked: AskedView::Resolve,
            core,
        }
    } else {
        LoadView {
            frames: rest.push(FrameView { deps: w.skip(1), ..f }),
            asked: AskedView::Find { path: w[0], name: w[0] },
            core,
        }
    }
}

/// What follows when the load of one image is over: the image that waits for it
/// goes on, or the whole load is over.
pub open spec fn goes_on(
    dll: LoaderView,
    frames: Seq<FrameView>,
    core: bool,
    done: Option<u64>,
) -> LoadView {
    if frames.len() == 0 {
        LoadView { frames, asked: AskedView::Finished(done), core }
    } else {
        top_asks(dll, frames, core)
    }
}

/// What a load leaves behind where guest memory faulted.
pub open spec fn given_up(core: bool) -> LoadView {
    LoadView { frames: Seq::empty(), asked: AskedView::Finished(None), core }
}

/// What a step leads to.
pub struct PlugOut {
    pub dll: LoaderView,
    pub mem: MemView,
    pub thunks: ThunkView,
    pub load: LoadView,
    pub r: Result<(), Fault>,
}

/// The start of a load. An image that is there, or being loaded, is not loaded
/// again.
pub open spec fn started(dll: LoaderView, path: Seq<char>, name: Seq<char>, core: bool) -> LoadView {
    LoadView {
        frames: Seq::empty(),
        asked: if !core && is_present(dll, name) {
            AskedView::Finished(
                if dll.by_name.contains_key(name) {
                    Some(dll.by_name[name])
                } else {
                    None
                },
            )
        } else {
            AskedView::Find { path, name }
        },
        core,
    }
}

/// What a found file leads to: a place in the arena, and the question for its
/// relocated parts. Without a file, or without room, that library is left out.
pub open spec fn found_out(
    cfg: WinConfig,
    dll: LoaderView,
    s: LoadView,
    file: Option<(Seq<char>, PeView)>,
) -> (LoaderView, LoadView) {
    match file {
        None => (dll, goes_on(dll, s.frames, s.core, None)),
        Some(f) => {
            let image = f.1;
            let d = dll.placed(cfg.dll_base, cfg.dll_size, image.size_of_image);
            match dll.place(cfg.dll_base, cfg.dll_size, image.size_of_image) {
                None => (d, goes_on(d, s.frames, s.core, None)),
                Some(base) => (
                    d,
                    LoadView {
                        asked: AskedView::Relocate {
                            name: s.asked->Find_name,
                            full_path: f.0,
                            base: base as u64,
                            image,
                        },
                        ..s
                    },
                ),
            }
        },
    }
}

/// The libraries that some imports need: neither emulated nor known, each once.
pub open spec fn needs(known: Map<Seq<char>, u64>, imports: Seq<PeImportView>) -> Seq<Seq<char>>
    decreases imports.len(),
{
    if imports.len() == 0 {
        Seq::empty()
    } else {
        let before = needs(known, imports.drop_last());
        let i = imports.last();
        let dep = host_name(i.dll, i.host);
        if is_emulated(dep) || known.contains_key(dep) || before.contains(dep) {
            before
        } else {
            before.push(dep)
        }
    }
}

/// The headers and the parts of an image at `base`.
pub open spec fn image_blocks(base: u64, headers: Seq<u8>, parts: Seq<ImageSectionView>) -> Seq<
    Block,
> {
    Seq::new(
        parts.len() + 1,
        |i: int|
            if i == 0 {
                Block { addr: base, data: headers }
            } else {
                Block { addr: ga(base, parts[i - 1].rva as int), data: parts[i - 1].data }
            },
    )
}

/// The loader with an image mapped at `base` and known by its name.
pub open spec fn known_with(dll: LoaderView, s: LoadView) -> LoaderView {
    let name = s.asked->Relocate_name;
    LoaderView {
        exports: dll.exports.insert(s.asked->base, s.asked->image.exports),
        by_name: dll.by_name.insert(name, s.asked->base),
        loading: if s.core {
            dll.loading
        } else {
            dll.loading.push(name)
        },
        ..dll
    }
}

/// The image that was relocated, as it waits for what it needs.
pub open spec fn mapped_frame(dll: LoaderView, s: LoadView) -> FrameView {
    let image = s.asked->image;
    FrameView {
        name: s.asked->Relocate_name,
        full_path: s.asked->Relocate_full_path,
        base: s.asked->base,
        size: image.size_of_image,
        entry_rva: image.entry_rva,
        imports: image.imports,
        deps: if s.core {
            Seq::empty()
        } else {
            needs(known_with(dll, s).by_name, image.imports)
        },
    }
}

/// What the relocated parts lead to: the image is mapped and known, and asks for
/// what it needs. Without parts, its place is given back and it is left out.
pub open spec fn relocated_out(
    dll: LoaderView,
    m: MemView,
    thunks: ThunkView,
    s: LoadView,
    parts: Option<Seq<ImageSectionView>>,
) -> PlugOut {
    let base = s.asked->base;
    match parts {
        None => {
            let d = LoaderView { arena_next: base, ..dll };
            PlugOut {
                dll: d,
                mem: m,
                thunks,
                load: goes_on(d, s.frames, s.core, None),
                r: Ok(()),
            }
        },
        Some(parts) => {
            let w = write_blocks(m, image_blocks(base, s.asked->image.headers, parts));
            match w.fault {
                Some(f) => PlugOut { dll, mem: w.mem, thunks, load: given_up(s.core), r: Err(f) },
                None => {
                    let d = known_with(dll, s);
                    PlugOut {
                        dll: d,
                        mem: w.mem,
                        thunks,
                        load: top_asks(d, s.frames.push(mapped_frame(dll, s)), s.core),
                        r: Ok(()),
                    }
                },
            }
        },
    }
}

/// The library that an import is looked up in.
pub open spec fn import_library(i: PeImportView) -> Seq<char> {
    match i.host {
        Some(h) => h,
        None => i.dll,
    }
}

/// The guest code behind import `k`, where there is any.
pub open spec fn guest_code(guest: Seq<Option<u64>>, k: int) -> Option<u64> {
    if k < guest.len() {
        guest[k]
    } else {
        None
    }
}

/// The address of an import: guest code, or else a thunk.
pub open spec fn import_target(t: ThunkView, i: PeImportView, code: Option<u64>) -> u64 {
    match code {
        Some(a) => a,
        None => t.target(import_library(i), i.symbol),
    }
}

/// The thunks after an import got its address.
pub open spec fn import_thunks(t: ThunkView, i: PeImportView, code: Option<u64>) -> ThunkView {
    match code {
        Some(_) => t,
        None => t.resolved(import_library(i), i.symbol),
    }
}

/// Memory and thunks after the first `k` imports of an image were bound.
pub struct Bound {
    pub thunks: ThunkView,
    pub mem: MemView,
    pub fault: Option<Fault>,
}

/// The first `k` imports bound, in order, up to the first fault.
pub open spec fn bound(
    is_64bit: bool,
    t: ThunkView,
    m: MemView,
    base: u64,
    imports: Seq<PeImportView>,
    guest: Seq<Option<u64>>,
    k: nat,
) -> Bound
    decreases k,
{
    if k == 0 {
        Bound { thunks: t, mem: m, fault: None }
    } else {
        let b = bound(is_64bit, t, m, base, imports, guest, (k - 1) as nat);
        if b.fault is Some {
            b
        } else {
            let i = imports[k - 1];
            let code = guest_code(guest, k - 1);
            let s = b.mem.store(
                sptr(is_64bit, ga(base, i.iat_rva as int), import_target(b.thunks, i, code)),
            );
            Bound { thunks: import_thunks(b.thunks, i, code), mem: s.mem, fault: s.fault }
        }
    }
}

/// Imports whose binding faulted are bound no further.
proof fn lemma_bound_stops(
    is_64bit: bool,
    t: ThunkView,
    m: MemView,
    base: u64,
    imports: Seq<PeImportView>,
    guest: Seq<Option<u64>>,
    k: nat,
    n: nat,
)
    requires
        k <= n,
        bound(is_64bit, t, m, base, imports, guest, k).fault is Some,
    ensures
        bound(is_64bit, t, m, base, imports, guest, n) == bound(
            is_64bit,
            t,
            m,
            base,
            imports,
            guest,
            k,
        ),
    decreases n - k,
{
    if k < n {
        lemma_bound_stops(is_64bit, t, m, base, imports, guest, k, (n - 1) as nat);
    }
}

/// The entry point of an image at `base`; 0 for none.
pub open spec fn entry_point(base: u64, entry_rva: u32) -> u64 {
    if entry_rva != 0 {
        ga(base, entry_rva as int)
    } else {
        0
    }
}

/// An image as a fresh module.
pub open spec fn fresh_module(f: FrameView) -> ModuleView {
    ModuleView {
        name: f.name,
        full_path: f.full_path,
        base: f.base,
        size: f.size as u64,
        entry: entry_point(f.base, f.entry_rva),
        ref_count: 1,
        ldr_entry: 0,
        quiet: false,
        attached: false,
    }
}

/// What the guest code behind the imports leads to: they are bound, the image is
/// listed, its entry point is queued behind those of what it needs, and the image
/// that waits for it goes on.
pub open spec fn resolved_out(
    cfg: WinConfig,
    dll: LoaderView,
    m: MemView,
    thunks: ThunkView,
    s: LoadView,
    guest: Seq<Option<u64>>,
    run: bool,
) -> PlugOut {
    let f = s.frames.last();
    let b = bound(cfg.is_64bit, thunks, m, f.base, f.imports, guest, f.imports.len());
    match b.fault {
        Some(e) => PlugOut { dll, mem: b.mem, thunks: b.thunks, load: given_up(s.core), r: Err(e) },
        None => {
            let module = fresh_module(f);
            let d = LoaderView { modules: dll.modules.push(module), ..dll };
            let a = add_module_out(cfg, d, b.mem, dll.modules.len() as int);
            match a.r {
                Err(e) => PlugOut {
                    dll: a.dll,
                    mem: a.mem,
                    thunks: b.thunks,
                    load: given_up(s.core),
                    r: Err(e),
                },
                Ok(_) => {
                    let e = LoaderView {
                        loading: if s.core || a.dll.loading.len() == 0 {
                            a.dll.loading
                        } else {
                            a.dll.loading.drop_last()
                        },
                        pending_attach: if module.entry != 0 && (s.core || run) {
                            a.dll.pending_attach.push((module.entry, f.base))
                        } else {
                            a.dll.pending_attach
                        },
                        ..a.dll
                    };
                    PlugOut {
                        dll: e,
                        mem: a.mem,
                        thunks: b.thunks,
                        load: goes_on(e, s.frames.drop_last(), s.core, Some(f.base)),
                        r: Ok(()),
                    }
                },
            }
        },
    }
}

// ---- code -------------------------------------------------------------------

/// Whether a name is in a list.
fn listed(names: &Vec<String>, name: &str) -> (r: bool)
    ensures
        r == string_views(names@).contains(name@),
{
    let ghost v = string_views(names@);
    let mut i: usize = 0;
    while i < names.len()
        invariant
            i <= names.len(),
            v == string_views(names@),
            forall|j: int| 0 <= j < i ==> #[trigger] v[j] != name@,
        decreases names.len() - i,
    {
        assert(v[i as int] == names@[i as int]@);
        if str_eq(names[i].as_str(), name) {
            return true;
        }
        i = i + 1;
    }
    false
}

/// Whether a library is loaded, or being loaded.
fn present(dll: &Loader, name: &str) -> (r: bool)
    ensures
        r == is_present(dll@, name@),
{
    dll.by_name.contains_key(name) || listed(&dll.loading, name)
}

/// The libraries that some imports need.
fn dependencies(dll: &Loader, imports: &Vec<PeImport>) -> (r: Vec<String>)
    ensures
        string_views(r@) == needs(dll@.by_name, pe_import_views(imports@)),
{
    let ghost v = pe_import_views(imports@);
    let mut out: Vec<String> = Vec::new();
    let mut i: usize = 0;
    assert(v.take(0) =~= Seq::empty());
    assert(string_views(out@) =~= Seq::empty());
    while i < imports.len()
        invariant
            i <= imports.len(),
            v == pe_import_views(imports@),
            string_views(out@) == needs(dll@.by_name, v.take(i as int)),
        decreases imports.len() - i,
    {
        let e = &imports[i];
        assert(v[i as int] == e@);
        assert(v.take(i + 1).drop_last() =~= v.take(i as int));
        let dep = match &e.host {
            Some(h) => canonical_name(e.dll.as_str(), Some(h.as_str())),
            None => canonical_name(e.dll.as_str(), None),
        };
        let ghost before = string_views(out@);
        if !emulated(dep.as_str()) && !dll.by_name.contains_key(dep.as_str()) && !listed(
            &out,
            dep.as_str(),
        ) {
            let ghost d = dep@;
            out.push(dep);
            assert(string_views(out@) =~= before.push(d));
        }
        i = i + 1;
    }
    assert(v.take(i as int) =~= v);
    out
}

/// The address of an import.
fn resolve_one(thunks: &mut ThunkTable, e: &PeImport, code: Option<u64>) -> (a: u64)
    requires
        old(thunks).wf(),
        old(thunks)@.has_room(1),
    ensures
        final(thunks).wf(),
        final(thunks).extends(*old(thunks)),
        a == import_target(old(thunks)@, e@, code),
        final(thunks)@ == import_thunks(old(thunks)@, e@, code),
{
    match code {
        Some(a) => a,
        None => {
            let name = e.symbol.name();
            match &e.host {
                Some(h) => thunks.resolve(h.as_str(), name.as_str()),
                None => thunks.resolve(e.dll.as_str(), name.as_str()),
            }
        },
    }
}

/// Bind the imports of an image.
fn bind_imports(
    is_64bit: bool,
    thunks: &mut ThunkTable,
    mem: &mut VirtualMemory,
    base: u64,
    imports: &Vec<PeImport>,
    guest: &Vec<Option<u64>>,
) -> (r: Result<(), Fault>)
    requires
        old(thunks).wf(),
        old(thunks)@.has_room(imports.len() as int),
    ensures
        final(thunks).wf(),
        final(thunks).extends(*old(thunks)),
        ({
            let b = bound(
                is_64bit,
                old(thunks)@,
                old(mem)@,
                base,
                pe_import_views(imports@),
                guest@,
                imports@.len(),
            );
            &&& final(thunks)@ == b.thunks
            &&& final(mem)@ == b.mem
            &&& r == fault_result(b.fault)
        }),
{
    let ghost v = pe_import_views(imports@);
    let ghost t = thunks@;
    let ghost m = mem@;
    let mut i: usize = 0;
    while i < imports.len()
        invariant
            i <= imports.len(),
            v == pe_import_views(imports@),
            t == old(thunks)@,
            m == old(mem)@,
            thunks.wf(),
            thunks.extends(*old(thunks)),
            thunks@.has_room(imports.len() - i),
            bound(is_64bit, t, m, base, v, guest@, i as nat) == (Bound {
                thunks: thunks@,
                mem: mem@,
                fault: None,
            }),
        decreases imports.len() - i,
    {
        let e = &imports[i];
        assert(v[i as int] == e@);
        let code: Option<u64> = if i < guest.len() {
            guest[i]
        } else {
            None
        };
        let a: u64 = resolve_one(thunks, e, code);
        match mem.store(store_ptr(is_64bit, at(base, e.iat_rva as u64), a)) {
            Ok(_) => {},
            Err(f) => {
                proof {
                    lemma_bound_stops(
                        is_64bit,
                        t,
                        m,
                        base,
                        v,
                        guest@,
                        (i + 1) as nat,
                        imports@.len(),
                    );
                }
                return Err(f);
            },
        }
        i = i + 1;
    }
    Ok(())
}

/// A file that the host found: its path, and what it holds.
pub struct FoundFile {
    pub full_path: String,
    pub image: PeImage,
}

/// The view of a file that may have been found.
pub open spec fn found_view(f: Option<FoundFile>) -> Option<(Seq<char>, PeView)> {
    match f {
        Some(f) => Some((f.full_path@, f.image@)),
        None => None,
    }
}

/// The view of parts that may have been relocated.
pub open spec fn parts_view(p: Option<Vec<ImageSection>>) -> Option<Seq<ImageSectionView>> {
    match p {
        Some(p) => Some(part_views(p@)),
        None => None,
    }
}

impl PluginLoad {
    /// Start to load a library.
    pub fn load_plugin(dll: &Loader, path: &str, name: &str, core: bool) -> (s: PluginLoad)
        ensures
            s@ == started(dll@, path@, name@, core),
            s@.wf(),
    {
        let frames: Vec<LoadFrame> = Vec::new();
        assert(load_views(frames@) =~= Seq::empty());
        if !core && present(dll, name) {
            let known: Option<u64> = match dll.by_name.get(name) {
                Some(h) => Some(*h),
                None => None,
            };
            return PluginLoad { frames, asked: Asked::Finished(known), core };
        }
        let p = chars_of(path);
        let n = chars_of(name);
        PluginLoad { frames, asked: Asked::Find { path: string_of(&p), name: string_of(&n) }, core }
    }

    /// Let the image on top ask.
    fn ask(&mut self, dll: &Loader)
        requires
            old(self).frames.len() > 0,
        ensures
            final(self)@ == top_asks(dll@, old(self)@.frames, old(self)@.core),
            final(self)@.wf(),
    {
        let ghost fs = self@.frames;
        let mut f = match self.frames.pop() {
            Some(f) => f,
            None => {
                return;
            },
        };
        let ghost fv = f@;
        assert(load_views(self.frames@) =~= fs.drop_last());
        assert(fs.last() == fv);
        let ghost d = dll@;
        while f.deps.len() > 0 && present(dll, f.deps[0].as_str())
            invariant
                d == dll@,
                f@ == (FrameView { deps: string_views(f.deps@), ..fv }),
                wanted(d, fv.deps) == wanted(d, string_views(f.deps@)),
                self.core == old(self).core,
                load_views(self.frames@) == fs.drop_last(),
                fs == old(self)@.frames,
                fs.len() > 0,
                fs.last() == fv,
            decreases f.deps.len(),
        {
            let ghost ds = string_views(f.deps@);
            assert(ds[0] == f.deps@[0]@);
            let _skip = f.deps.remove(0);
            assert(string_views(f.deps@) =~= ds.skip(1));
        }
        let ghost ds = string_views(f.deps@);
        proof {
            if ds.len() > 0 {
                assert(ds[0] == f.deps@[0]@);
            }
        }
        if f.deps.len() == 0 {
            assert(ds =~= Seq::empty());
            let ghost gv = f@;
            self.frames.push(f);
            assert(load_views(self.frames@) =~= fs.drop_last().push(gv));
            self.asked = Asked::Resolve;
        } else {
            let dep = f.deps.remove(0);
            assert(string_views(f.deps@) =~= ds.skip(1));
            let ghost gv = f@;
            self.frames.push(f);
            assert(load_views(self.frames@) =~= fs.drop_last().push(gv));
            let path = dep.clone();
            self.asked = Asked::Find { path, name: dep };
        }
    }

    /// Go on after the load of one image is over.
    fn go_on(&mut self, dll: &Loader, done: Option<u64>)
        ensures
            final(self)@ == goes_on(dll@, old(self)@.frames, old(self)@.core, done),
            final(self)@.wf(),
    {
        if self.frames.len() == 0 {
            self.asked = Asked::Finished(done);
        } else {
            self.ask(dll);
        }
    }

    /// End a load that faulted.
    fn give_up(&mut self)
        ensures
            final(self)@ == given_up(old(self)@.core),
            final(self)@.wf(),
    {
        self.frames = Vec::new();
        assert(load_views(self.frames@) =~= Seq::empty());
        self.asked = Asked::Finished(None);
    }

    /// Take the host's answer to a question for a file.
    pub fn found(&mut self, cfg: &WinConfig, dll: &mut Loader, file: Option<FoundFile>)
        requires
            old(self)@.asked is Find,
        ensures
            (final(dll)@, final(self)@) == found_out(
                *cfg,
                old(dll)@,
                old(self)@,
                found_view(file),
            ),
            final(self)@.wf(),
    {
        let name = match &self.asked {
            Asked::Find { path: _, name } => name.clone(),
            _ => String::new(),
        };
        match file {
            None => {
                self.go_on(dll, None);
            },
            Some(f) => {
                match dll.reserve_image(cfg.dll_base, cfg.dll_size, f.image.size_of_image) {
                    None => {
                        self.go_on(dll, None);
                    },
                    Some(base) => {
                        self.asked = Asked::Relocate {
                            name,
                            full_path: f.full_path,
                            base,
                            image: f.image,
                        };
                    },
                }
            },
        }
    }

    /// Take the host's answer to a question for relocated parts.
    pub fn relocated(
        &mut self,
        dll: &mut Loader,
        mem: &mut VirtualMemory,
        parts: Option<Vec<ImageSection>>,
    ) -> (r: Result<(), Fault>)
        requires
            old(self)@.asked is Relocate,
        ensures
            forall|t: ThunkView|
                (PlugOut {
                    dll: final(dll)@,
                    mem: final(mem)@,
                    thunks: t,
                    load: final(self)@,
                    r,
                }) == #[trigger] relocated_out(
                    old(dll)@,
                    old(mem)@,
                    t,
                    old(self)@,
                    parts_view(parts),
                ),
            final(self)@.wf(),
    {
        let ghost v = dll@;
        let ghost s = self@;
        let mut asked = Asked::Resolve;
        std::mem::swap(&mut asked, &mut self.asked);
        match asked {
            Asked::Relocate { name, full_path, base, image } => {
                match parts {
                    None => {
                        dll.arena_next = base;
                        self.go_on(dll, None);
                        Ok(())
                    },
                    Some(parts) => {
                        let ghost iv = image@;
                        let PeImage { size_of_image, entry_rva, headers, imports, exports } = image;
                        let ps = image_pieces(base, headers, parts);
                        match write_pieces(mem, &ps) {
                            Ok(_) => {},
                            Err(f) => {
                                self.give_up();
                                return Err(f);
                            },
                        }
                        let _a = dll.exports.insert(base, exports);
                        let _b = dll.by_name.insert(name.clone(), base);
                        if !self.core {
                            let ghost before = dll@.loading;
                            dll.loading.push(name.clone());
                            assert(dll@.loading =~= before.push(name@));
                        }
                        assert(dll@.exports =~= v.exports.insert(base, iv.exports));
                        let deps: Vec<String> = if self.core {
                            Vec::new()
                        } else {
                            dependencies(dll, &imports)
                        };
                        assert(self.core ==> string_views(deps@) =~= Seq::empty());
                        let f = LoadFrame {
                            name,
                            full_path,
                            base,
                            size: size_of_image,
                            entry_rva,
                            imports,
                            deps,
                        };
                        let ghost fv = f@;
                        self.frames.push(f);
                        assert(self@.frames =~= s.frames.push(fv));
                        self.ask(dll);
                        Ok(())
                    },
                }
            },
            _ => Ok(()),
        }
    }

    /// Take the host's answer to a question for guest code behind imports.
    pub fn resolved(
        &mut self,
        cfg: &WinConfig,
        dll: &mut Loader,
        thunks: &mut ThunkTable,
        mem: &mut VirtualMemory,
        guest: &Vec<Option<u64>>,
        run: bool,
    ) -> (r: Result<(), Fault>)
        requires
            old(self)@.wf(),
            old(self)@.asked is Resolve,
            old(thunks).wf(),
            old(thunks)@.has_room(old(self)@.frames.last().imports.len() as int),
        ensures
            (PlugOut {
                dll: final(dll)@,
                mem: final(mem)@,
                thunks: final(thunks)@,
                load: final(self)@,
                r,
            }) == resolved_out(
                *cfg,
                old(dll)@,
                old(mem)@,
                old(thunks)@,
                old(self)@,
                guest@,
                run,
            ),
            final(self)@.wf(),
            final(thunks).wf(),
            final(thunks).extends(*old(thunks)),
    {
        let ghost v = dll@;
        let ghost fs = self@.frames;
        let f = match self.frames.pop() {
            Some(f) => f,
            None => {
                return Ok(());
            },
        };
        let ghost fv = f@;
        assert(load_views(self.frames@) =~= fs.drop_last());
        assert(fs.last() == fv);
        match bind_imports(cfg.is_64bit, thunks, mem, f.base, &f.imports, guest) {
            Ok(_) => {},
            Err(e) => {
                self.give_up();
                return Err(e);
            },
        }
        let base: u64 = f.base;
        let entry: u64 = if f.entry_rva != 0 {
            at(base, f.entry_rva as u64)
        } else {
            0
        };
        let m = Module {
            name: f.name,
            full_path: f.full_path,
            base,
            size: f.size as u64,
            entry,
            ref_count: 1,
            ldr_entry: 0,
            quiet: false,
            attached: false,
        };
        assert(m@ == fresh_module(fv));
        let last: usize = dll.modules.len();
        dll.modules.push(m);
        assert(dll@.modules =~= v.modules.push(fresh_module(fv)));
        match dll.ldr_add_module(cfg, mem, last) {
            Ok(_) => {},
            Err(e) => {
                self.give_up();
                return Err(e);
            },
        }
        let ghost w = dll@;
        if !self.core {
            let _name = dll.loading.pop();
            assert(dll@.loading =~= if w.loading.len() == 0 {
                w.loading
            } else {
                w.loading.drop_last()
            });
        }
        if entry != 0 && (self.core || run) {
            dll.pending_attach.push((entry, base));
        }
        self.go_on(dll, Some(base));
        Ok(())
    }
}

/// The headers and the parts of an image as pieces.
fn image_pieces(base: u64, headers: Vec<u8>, parts: Vec<ImageSection>) -> (ps: Vec<Piece>)
    ensures
        piece_blocks(ps@) == image_blocks(base, headers@, part_views(parts@)),
{
    let ghost pv = part_views(parts@);
    let mut parts = parts;
    let ghost n = parts.len() as int;
    let mut ps: Vec<Piece> = Vec::new();
    let ghost h = headers@;
    ps.push(Piece { addr: base, data: headers });
    while parts.len() > 0
        invariant
            pv.len() == n,
            ps.len() + parts.len() == n + 1,
            part_views(parts@) == pv.skip(n - parts.len()),
            ps@[0].addr == base,
            ps@[0].data@ == h,
            forall|j: int|
                1 <= j < ps.len() ==> (#[trigger] ps@[j]).addr == ga(base, pv[j - 1].rva as int)
                    && ps@[j].data@ == pv[j - 1].data,
            ps.len() >= 1,
        decreases parts.len(),
    {
        let ghost k = n - parts.len();
        let ghost rest = part_views(parts@);
        let p = parts.remove(0);
        proof {
            assert(rest[0] == p@);
            assert(rest[0] == pv[k]);
            assert(part_views(parts@) =~= rest.skip(1));
            assert(rest.skip(1) =~= pv.skip(k + 1));
        }
        ps.push(Piece { addr: at(base, p.rva as u64), data: p.data });
    }
    assert(piece_blocks(ps@) =~= image_blocks(base, h, pv));
    ps
}

// ---- symbols by handle ------------------------------------------------------

/// The value of a variable that the C runtime exports.
pub open spec fn data_export(cfg: WinConfig, name: Seq<char>) -> Option<u64> {
    if name == "_acmdln"@ {
        Some(cfg.cmdline_ptr_a)
    } else if name == "_wcmdln"@ {
        Some(cfg.cmdline_ptr_w)
    } else {
        None
    }
}

/// The value of a variable that the C runtime exports.
pub fn data_export_value(cfg: &WinConfig, name: &str) -> (r: Option<u64>)
    ensures
        r == data_export(*cfg, name@),
{
    if str_eq(name, "_acmdln") {
        Some(cfg.cmdline_ptr_a)
    } else if str_eq(name, "_wcmdln") {
        Some(cfg.cmdline_ptr_w)
    } else {
        None
    }
}

/// The name under which an export by number is imported.
pub open spec fn ordinal_text(n: u64) -> Seq<char> {
    "#ord"@ + numeral((n as u16) as nat, 10)
}

/// What looking a symbol up leads to.
pub struct ProcOut {
    pub thunks: ThunkView,
    pub reply: Reply,
}

/// A symbol of an image: the address of the export, or 0.
pub open spec fn export_found(exports: Seq<ExportView>, h: u64, p: spec_fn(ExportView) -> bool) -> u64 {
    match first_index(exports, p) {
        Some(i) => ga(h, exports[i].rva as int),
        None => 0,
    }
}

/// `GetProcAddress`: what an image exports, or the thunk of a symbol of an
/// emulated library. A value below 0x1_0000 is a number in place of a name. The
/// thunk of an exported variable holds its value.
pub open spec fn proc_out(
    cfg: WinConfig,
    dll: LoaderView,
    t: ThunkView,
    m: MemView,
    h: u64,
    p: u64,
) -> ProcOut {
    if dll.exports.contains_key(h) {
        let e = dll.exports[h];
        if p < 0x1_0000 {
            ProcOut { thunks: t, reply: answer(m, export_found(e, h, export_numbered(p))) }
        } else {
            match narrow_text(m, p) {
                Err(f) => ProcOut { thunks: t, reply: faulted(m, f) },
                Ok(name) => ProcOut {
                    thunks: t,
                    reply: answer(m, export_found(e, h, export_named(name))),
                },
            }
        }
    } else if dll.system.contains_key(h) {
        let lib = dll.system[h];
        if p < 0x1_0000 {
            let name = ordinal_text(p);
            ProcOut { thunks: t.resolved(lib, name), reply: answer(m, t.target(lib, name)) }
        } else {
            match narrow_text(m, p) {
                Err(f) => ProcOut { thunks: t, reply: faulted(m, f) },
                Ok(name) => if name.len() == 0 {
                    ProcOut { thunks: t, reply: answer(m, 0) }
                } else {
                    let a = t.target(lib, name);
                    ProcOut {
                        thunks: t.resolved(lib, name),
                        reply: match data_export(cfg, name) {
                            None => answer(m, a),
                            Some(v) => crate::call::answer_after(
                                m.store(sptr(cfg.is_64bit, a, v)),
                                a,
                            ),
                        },
                    }
                },
            }
        }
    } else {
        ProcOut { thunks: t, reply: answer(m, 0) }
    }
}

impl Loader {
    /// The address of a symbol of a loaded or emulated library.
    pub fn get_proc_address(
        &self,
        cfg: &WinConfig,
        thunks: &mut ThunkTable,
        mem: &mut VirtualMemory,
        h: u64,
        p: u64,
    ) -> (r: Result<u64, Fault>)
        requires
            old(thunks).wf(),
            old(thunks)@.has_room(1),
        ensures
            final(thunks).wf(),
            final(thunks).extends(*old(thunks)),
            ({
                let o = proc_out(*cfg, self@, old(thunks)@, old(mem)@, h, p);
                &&& final(thunks)@ == o.thunks
                &&& final(mem)@ == o.reply.mem
                &&& r == o.reply.r
            }),
    {
        if let Some(list) = self.exports.get(&h) {
            assert(self@.exports[h] == export_views(list@));
            let found: Option<usize> = if p < 0x1_0000 {
                find_numbered(list, p)
            } else {
                match read_astr(mem, p) {
                    Ok(name) => find_named(list, name.as_str(), false),
                    Err(f) => {
                        return Err(f);
                    },
                }
            };
            return Ok(
                match found {
                    Some(i) => {
                        assert(export_views(list@)[i as int] == list@[i as int]@);
                        at(h, list[i].rva as u64)
                    },
                    None => 0,
                },
            );
        }
        if let Some(lib) = self.system.get(&h) {
            if p < 0x1_0000 {
                let symbol = ImportSymbol::Ordinal(p as u16);
                let name = symbol.name();
                return Ok(thunks.resolve(lib.as_str(), name.as_str()));
            }
            let name = match read_astr(mem, p) {
                Ok(name) => name,
                Err(f) => {
                    return Err(f);
                },
            };
            let cs = chars_of(name.as_str());
            if cs.len() == 0 {
                return Ok(0);
            }
            let a: u64 = thunks.resolve(lib.as_str(), name.as_str());
            if let Some(v) = data_export_value(cfg, name.as_str()) {
                match mem.store(store_ptr(cfg.is_64bit, a, v)) {
                    Ok(_) => {},
                    Err(f) => {
                        return Err(f);
                    },
                }
            }
            return Ok(a);
        }
        Ok(0)
    }
}

} // verus!
