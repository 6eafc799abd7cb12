//! The module table: which libraries are loaded, who holds them, and where the
//! next image goes.

use vstd::prelude::*;

use std::collections::HashMap;

use crate::path::is_slash;
use crate::text::{
    append_str, chars_eq, chars_of, lower_char, lower_text, str_eq, string_of, sub_chars,
    to_lower_chars,
};
use crate::util::{
    align_up, first_index, lemma_first_index, lemma_first_index_is, lemma_first_index_none,
    lemma_round_up, max_int, round_up, StrMap,
};

verus! {

broadcast use vstd::std_specs::hash::group_hash_axioms;

/// The handle of the first emulated library.
pub const FIRST_SYSTEM: u64 = 0x00D1_0000;

/// Whether a library is served by thunks instead of being loaded.
pub open spec fn is_emulated(name: Seq<char>) -> bool {
    ||| name == "kernel32.dll"@
    ||| name == "kernelbase.dll"@
    ||| name == "user32.dll"@
    ||| name == "gdi32.dll"@
    ||| name == "advapi32.dll"@
    ||| name == "shell32.dll"@
    ||| name == "shlwapi.dll"@
    ||| name == "ole32.dll"@
    ||| name == "oleaut32.dll"@
    ||| name == "comctl32.dll"@
    ||| name == "comdlg32.dll"@
    ||| name == "version.dll"@
    ||| name == "ntdll.dll"@
    ||| name == "msvcrt.dll"@
    ||| name == "ws2_32.dll"@
    ||| name == "crypt32.dll"@
    ||| name == "setupapi.dll"@
    ||| name == "winmm.dll"@
    ||| name == "rpcrt4.dll"@
    ||| name == "userenv.dll"@
    ||| name == "psapi.dll"@
    ||| name == "imm32.dll"@
    ||| name == "gdiplus.dll"@
}

/// Whether a library is served by thunks instead of being loaded.
pub fn emulated(name: &str) -> (r: bool)
    ensures
        r == is_emulated(name@),
{
    str_eq(name, "kernel32.dll")
        || str_eq(name, "kernelbase.dll")
        || str_eq(name, "user32.dll")
        || str_eq(name, "gdi32.dll")
        || str_eq(name, "advapi32.dll")
        || str_eq(name, "shell32.dll")
        || str_eq(name, "shlwapi.dll")
        || str_eq(name, "ole32.dll")
        || str_eq(name, "oleaut32.dll")
        || str_eq(name, "comctl32.dll")
        || str_eq(name, "comdlg32.dll")
        || str_eq(name, "version.dll")
        || str_eq(name, "ntdll.dll")
        || str_eq(name, "msvcrt.dll")
        || str_eq(name, "ws2_32.dll")
        || str_eq(name, "crypt32.dll")
        || str_eq(name, "setupapi.dll")
        || str_eq(name, "winmm.dll")
        || str_eq(name, "rpcrt4.dll")
        || str_eq(name, "userenv.dll")
        || str_eq(name, "psapi.dll")
        || str_eq(name, "imm32.dll")
        || str_eq(name, "gdiplus.dll")
}

// ---- names ------------------------------------------------------------------

/// The last component of a path.
pub open spec fn leaf(s: Seq<char>) -> Seq<char>
    decreases s.len(),
{
    if s.len() == 0 || is_slash(s.last()) {
        Seq::empty()
    } else {
        leaf(s.drop_last()).push(s.last())
    }
}

/// Whether a name ends in the extension of a library.
pub open spec fn ends_dll(s: Seq<char>) -> bool {
    s.len() >= 4 && s.skip(s.len() - 4) == ".dll"@
}

/// A name with the extension of a library ensured.
pub open spec fn with_dll(s: Seq<char>) -> Seq<char> {
    if ends_dll(s) {
        s
    } else {
        s + ".dll"@
    }
}

/// The name under which a library is known: the last component of its path, in
/// small letters and with the extension of a library.
pub open spec fn module_name(path: Seq<char>) -> Seq<char> {
    with_dll(lower_text(leaf(path)))
}

/// The name of the library that serves a contract, or the name as it is where it
/// names no contract.
pub open spec fn host_name(raw: Seq<char>, host: Option<Seq<char>>) -> Seq<char> {
    match host {
        Some(h) => with_dll(h),
        None => raw,
    }
}

/// A name with the extension ensured ends in it.
proof fn lemma_ends_dll(s: Seq<char>)
    ensures
        ends_dll(with_dll(s)),
{
    reveal_strlit(".dll");
    if !ends_dll(s) {
        let t = s + ".dll"@;
        assert(t.skip(t.len() - 4) =~= ".dll"@);
    }
}

/// The last component of a path holds no separator.
proof fn lemma_leaf_plain(s: Seq<char>)
    ensures
        forall|i: int| 0 <= i < leaf(s).len() ==> !is_slash(#[trigger] leaf(s)[i]),
    decreases s.len(),
{
    if s.len() > 0 && !is_slash(s.last()) {
        lemma_leaf_plain(s.drop_last());
        assert forall|i: int| 0 <= i < leaf(s).len() implies !is_slash(#[trigger] leaf(s)[i]) by {
            if i < leaf(s).len() - 1 {
                assert(leaf(s)[i] == leaf(s.drop_last())[i]);
            }
        }
    }
}

/// A name is known by itself: it holds no separator and no capital, ends in the
/// extension of a library, and leads to itself.
pub proof fn lemma_module_name(path: Seq<char>)
    ensures
        ends_dll(module_name(path)),
        forall|i: int|
            0 <= i < module_name(path).len() ==> !is_slash(#[trigger] module_name(path)[i]),
        module_name(module_name(path)) == module_name(path),
{
    let l = leaf(path);
    let t = lower_text(l);
    let n = module_name(path);
    reveal_strlit(".dll");
    lemma_leaf_plain(path);
    lemma_ends_dll(t);
    assert forall|i: int| 0 <= i < n.len() implies !is_slash(#[trigger] n[i]) && lower_char(n[i])
        == n[i] by {
        if i < t.len() {
            assert(!is_slash(l[i]));
            assert(n[i] == lower_char(l[i]));
        } else {
            assert(n[i] == ".dll"@[i - t.len()]);
        }
    }
    lemma_leaf(n, 0);
    assert(n.skip(0) =~= n);
    assert(lower_text(n) =~= n);
}

/// The leaf of a text is its end behind the last separator.
proof fn lemma_leaf(s: Seq<char>, k: int)
    requires
        0 <= k <= s.len(),
        k > 0 ==> is_slash(s[k - 1]),
        forall|j: int| k <= j < s.len() ==> !is_slash(#[trigger] s[j]),
    ensures
        leaf(s) == s.skip(k),
    decreases s.len(),
{
    if s.len() > k {
        let d = s.drop_last();
        assert forall|j: int| k <= j < d.len() implies !is_slash(#[trigger] d[j]) by {
            assert(d[j] == s[j]);
        }
        lemma_leaf(d, k);
        assert(d.skip(k).push(s.last()) =~= s.skip(k));
    } else {
        assert(s.skip(k) =~= Seq::empty());
    }
}

/// The name under which a library is known.
pub fn base_name(path: &str) -> (r: String)
    ensures
        r@ == module_name(path@),
        ends_dll(r@),
        forall|i: int| 0 <= i < r@.len() ==> !is_slash(#[trigger] r@[i]),
        module_name(r@) == r@,
{
    let cs = chars_of(path);
    let n: usize = cs.len();
    let mut k: usize = n;
    while k > 0 && cs[k - 1] != '\\' && cs[k - 1] != '/'
        invariant
            k <= n == cs.len(),
            forall|j: int| k <= j < n ==> !is_slash(#[trigger] cs@[j]),
        decreases k,
    {
        k = k - 1;
    }
    proof {
        lemma_leaf(cs@, k as int);
        assert(cs@.subrange(k as int, n as int) =~= cs@.skip(k as int));
    }
    let last = sub_chars(&cs, k, n);
    let low = to_lower_chars(&last);
    proof {
        lemma_module_name(path@);
    }
    ensure_dll(low)
}

/// A name with the extension of a library ensured.
fn ensure_dll(name: Vec<char>) -> (r: String)
    ensures
        r@ == with_dll(name@),
{
    let mut cs = name;
    let n: usize = cs.len();
    let mut ends: bool = false;
    if n >= 4 {
        let tail = sub_chars(&cs, n - 4, n);
        let dll = chars_of(".dll");
        proof {
            assert(cs@.subrange(n - 4, n as int) =~= cs@.skip(n - 4));
        }
        ends = chars_eq(&tail, &dll);
    }
    if !ends {
        append_str(&mut cs, ".dll");
    }
    string_of(&cs)
}

/// The view of an optional text.
pub open spec fn text_view(s: Option<&str>) -> Option<Seq<char>> {
    match s {
        Some(s) => Some(s@),
        None => None,
    }
}

/// The name of the library that serves a contract, or the name as it is.
pub fn canonical_name(raw: &str, host: Option<&str>) -> (r: String)
    ensures
        r@ == host_name(raw@, text_view(host)),
{
    match host {
        None => {
            let cs = chars_of(raw);
            string_of(&cs)
        },
        Some(h) => {
            let cs = chars_of(h);
            ensure_dll(cs)
        },
    }
}

// ---- exports and modules ----------------------------------------------------

/// An export of an image.
pub struct Export {
    pub name: Option<String>,
    pub ordinal: u32,
    pub rva: u32,
    /// The `library.symbol` that it stands for, in place of code of its own.
    pub forwarder: Option<String>,
}

/// An export as mathematics.
pub struct ExportView {
    pub name: Option<Seq<char>>,
    pub ordinal: u32,
    pub rva: u32,
    pub forwarder: Option<Seq<char>>,
}

/// The view of an optional string.
pub open spec fn string_view(s: Option<String>) -> Option<Seq<char>> {
    match s {
        Some(s) => Some(s@),
        None => None,
    }
}

impl View for Export {
    type V = ExportView;

    open spec fn view(&self) -> ExportView {
        ExportView {
            name: string_view(self.name),
            ordinal: self.ordinal,
            rva: self.rva,
            forwarder: string_view(self.forwarder),
        }
    }
}

/// The views of some exports.
pub open spec fn export_views(s: Seq<Export>) -> Seq<ExportView> {
    Seq::new(s.len(), |i: int| s[i]@)
}

/// The condition of being exported by a name.
pub open spec fn export_named(name: Seq<char>) -> spec_fn(ExportView) -> bool {
    |e: ExportView| e.name == Some(name)
}

/// The condition of being code that is exported by a name.
pub open spec fn code_named(name: Seq<char>) -> spec_fn(ExportView) -> bool {
    |e: ExportView| e.name == Some(name) && e.forwarder is None
}

/// The condition of being exported by a number.
pub open spec fn export_numbered(n: u64) -> spec_fn(ExportView) -> bool {
    |e: ExportView| e.ordinal == n
}

/// The first export with a name, of code alone where that is asked for.
pub fn find_named(exports: &Vec<Export>, name: &str, code: bool) -> (r: Option<usize>)
    ensures
        match r {
            Some(i) => i < exports.len() && first_index(
                export_views(exports@),
                if code {
                    code_named(name@)
                } else {
                    export_named(name@)
                },
            ) == Some(i as int),
            None => first_index(
                export_views(exports@),
                if code {
                    code_named(name@)
                } else {
                    export_named(name@)
                },
            ) is None,
        },
{
    let ghost p = if code {
        code_named(name@)
    } else {
        export_named(name@)
    };
    let mut i: usize = 0;
    while i < exports.len()
        invariant
            i <= exports.len(),
            p == (if code {
                code_named(name@)
            } else {
                export_named(name@)
            }),
            forall|j: int| 0 <= j < i ==> !p(#[trigger] export_views(exports@)[j]),
        decreases exports.len() - i,
    {
        let e = &exports[i];
        assert(export_views(exports@)[i as int] == e@);
        let named: bool = match &e.name {
            Some(n) => str_eq(n.as_str(), name),
            None => false,
        };
        if named && (!code || e.forwarder.is_none()) {
            proof {
                lemma_first_index_is(export_views(exports@), p, i as int);
            }
            return Some(i);
        }
        i = i + 1;
    }
    proof {
        lemma_first_index_none(export_views(exports@), p);
    }
    None
}

/// The first export with a number.
pub fn find_numbered(exports: &Vec<Export>, n: u64) -> (r: Option<usize>)
    ensures
        match r {
            Some(i) => i < exports.len() && first_index(export_views(exports@), export_numbered(n))
                == Some(i as int),
            None => first_index(export_views(exports@), export_numbered(n)) is None,
        },
{
    let mut i: usize = 0;
    while i < exports.len()
        invariant
            i <= exports.len(),
            forall|j: int|
                0 <= j < i ==> !export_numbered(n)(#[trigger] export_views(exports@)[j]),
        decreases exports.len() - i,
    {
        assert(export_views(exports@)[i as int] == exports[i as int]@);
        if exports[i].ordinal as u64 == n {
            proof {
                lemma_first_index_is(export_views(exports@), export_numbered(n), i as int);
            }
            return Some(i);
        }
        i = i + 1;
    }
    proof {
        lemma_first_index_none(export_views(exports@), export_numbered(n));
    }
    None
}

/// A loaded image.
pub struct Module {
    pub name: String,
    pub full_path: String,
    /// Where it is mapped, which is also its handle.
    pub base: u64,
    pub size: u64,
    /// The address of its entry point, or 0.
    pub entry: u64,
    pub ref_count: u32,
    /// Its entry in the loader lists of the guest.
    pub ldr_entry: u64,
    /// Whether it wants to hear nothing of threads.
    pub quiet: bool,
    /// Whether its entry point was told of the process and not yet of its end.
    pub attached: bool,
}

/// A loaded image as mathematics.
#[verifier::ext_equal]
pub struct ModuleView {
    pub name: Seq<char>,
    pub full_path: Seq<char>,
    pub base: u64,
    pub size: u64,
    pub entry: u64,
    pub ref_count: u32,
    pub ldr_entry: u64,
    pub quiet: bool,
    pub attached: bool,
}

impl View for Module {
    type V = ModuleView;

    open spec fn view(&self) -> ModuleView {
        ModuleView {
            name: self.name@,
            full_path: self.full_path@,
            base: self.base,
            size: self.size,
            entry: self.entry,
            ref_count: self.ref_count,
            ldr_entry: self.ldr_entry,
            quiet: self.quiet,
            attached: self.attached,
        }
    }
}

/// The views of some modules.
pub open spec fn module_views(s: Seq<Module>) -> Seq<ModuleView> {
    Seq::new(s.len(), |i: int| s[i]@)
}

/// The condition of having a name.
pub open spec fn is_named(name: Seq<char>) -> spec_fn(ModuleView) -> bool {
    |m: ModuleView| m.name == name
}

/// The condition of being mapped at an address.
pub open spec fn is_mapped(base: u64) -> spec_fn(ModuleView) -> bool {
    |m: ModuleView| m.base == base
}

/// A module that is told of new threads, as its entry point and handle.
pub open spec fn notified(m: ModuleView) -> Seq<(u64, u64)> {
    if m.entry != 0 && m.attached && !m.quiet {
        seq![(m.entry, m.base)]
    } else {
        Seq::empty()
    }
}

/// The modules that are told of new threads, in the order of their loading.
pub open spec fn thread_targets(s: Seq<ModuleView>) -> Seq<(u64, u64)>
    decreases s.len(),
{
    if s.len() == 0 {
        Seq::empty()
    } else {
        thread_targets(s.drop_last()) + notified(s.last())
    }
}

/// A module that is told of the end of the process.
pub open spec fn departing(m: ModuleView) -> Seq<(u64, u64)> {
    if m.entry != 0 && m.attached {
        seq![(m.entry, m.base)]
    } else {
        Seq::empty()
    }
}

/// The modules that are told of the end of the process, the last loaded first.
pub open spec fn exit_targets(s: Seq<ModuleView>) -> Seq<(u64, u64)>
    decreases s.len(),
{
    if s.len() == 0 {
        Seq::empty()
    } else {
        departing(s.last()) + exit_targets(s.drop_last())
    }
}

/// A module that was told of the end of the process.
pub open spec fn departed(m: ModuleView) -> ModuleView {
    ModuleView { attached: m.attached && m.entry == 0, ..m }
}

/// The modules after all were told of the end of the process.
pub open spec fn all_departed(s: Seq<ModuleView>) -> Seq<ModuleView> {
    Seq::new(s.len(), |i: int| departed(s[i]))
}

/// Everything that is loaded.
pub struct Loader {
    /// Where the next image goes; 0 before the first.
    pub arena_next: u64,
    /// The handle of each known library.
    pub by_name: StrMap<u64>,
    /// The exports of each image, by its address.
    pub exports: HashMap<u64, Vec<Export>>,
    /// The loaded images, in order.
    pub modules: Vec<Module>,
    /// The name of each emulated library, by its handle.
    pub system: HashMap<u64, String>,
    /// The handle of the next emulated library; 0 before the first.
    pub next_system: u64,
    /// The entry points to tell of the process, as entry point and handle.
    pub pending_attach: Vec<(u64, u64)>,
    /// The entry points to tell of the end of the process.
    pub pending_detach: Vec<(u64, u64)>,
    /// The names of the images that are being loaded.
    pub loading: Vec<String>,
    /// Where the loader structures end in guest memory; they grow downward.
    pub ldr_next: u64,
    /// The heads of the loader lists; 0 before they are built.
    pub ldr_data: u64,
    /// The loader lock, and how often it is held.
    pub lock: u64,
    pub lock_depth: u32,
    /// The map of contracts in guest memory; 0 before it is laid down.
    pub api_set_map: u64,
}

/// Everything that is loaded, as mathematics.
#[verifier::ext_equal]
pub struct LoaderView {
    pub arena_next: u64,
    pub by_name: Map<Seq<char>, u64>,
    pub exports: Map<u64, Seq<ExportView>>,
    pub modules: Seq<ModuleView>,
    pub system: Map<u64, Seq<char>>,
    pub next_system: u64,
    pub pending_attach: Seq<(u64, u64)>,
    pub pending_detach: Seq<(u64, u64)>,
    pub loading: Seq<Seq<char>>,
    pub ldr_next: u64,
    pub ldr_data: u64,
    pub lock: u64,
    pub lock_depth: u32,
    pub api_set_map: u64,
}

/// The views of the exports of images.
pub open spec fn export_maps(m: Map<u64, Vec<Export>>) -> Map<u64, Seq<ExportView>> {
    Map::new(|b: u64| m.contains_key(b), |b: u64| export_views(m[b]@))
}

/// The views of names by handle.
pub open spec fn system_views(m: Map<u64, String>) -> Map<u64, Seq<char>> {
    Map::new(|h: u64| m.contains_key(h), |h: u64| m[h]@)
}

impl View for Loader {
    type V = LoaderView;

    open spec fn view(&self) -> LoaderView {
        LoaderView {
            arena_next: self.arena_next,
            by_name: self.by_name@,
            exports: export_maps(self.exports@),
            modules: module_views(self.modules@),
            system: system_views(self.system@),
            next_system: self.next_system,
            pending_attach: self.pending_attach@,
            pending_detach: self.pending_detach@,
            loading: crate::path::string_views(self.loading@),
            ldr_next: self.ldr_next,
            ldr_data: self.ldr_data,
            lock: self.lock,
            lock_depth: self.lock_depth,
            api_set_map: self.api_set_map,
        }
    }
}

/// A handle, and the modules after it was asked for.
pub struct Handled {
    pub dll: LoaderView,
    pub handle: u64,
}

/// Whether a request was granted, and the modules after it.
pub struct Granted {
    pub dll: LoaderView,
    pub ok: bool,
}

impl LoaderView {
    /// Nothing is loaded.
    pub open spec fn empty() -> LoaderView {
        LoaderView {
            arena_next: 0,
            by_name: Map::empty(),
            exports: Map::empty(),
            modules: Seq::empty(),
            system: Map::empty(),
            next_system: 0,
            pending_attach: Seq::empty(),
            pending_detach: Seq::empty(),
            loading: Seq::empty(),
            ldr_next: 0,
            ldr_data: 0,
            lock: 0,
            lock_depth: 0,
            api_set_map: 0,
        }
    }

    /// Whether the handles of emulated libraries have not run out.
    pub open spec fn has_room(self) -> bool {
        self.next_system <= u64::MAX - 0x1_0000
    }

    /// The handle of an emulated library: the one it has, or the next.
    pub open spec fn system_handle(self, name: Seq<char>) -> Handled {
        if self.by_name.contains_key(name) {
            Handled { dll: self, handle: self.by_name[name] }
        } else {
            let h = if self.next_system == 0 {
                FIRST_SYSTEM
            } else {
                self.next_system
            };
            Handled {
                dll: LoaderView {
                    next_system: (h + 0x1_0000) as u64,
                    by_name: self.by_name.insert(name, h),
                    system: self.system.insert(h, name),
                    ..self
                },
                handle: h,
            }
        }
    }

    /// The same modules but one.
    pub open spec fn with_module(self, i: int, m: ModuleView) -> LoaderView {
        LoaderView { modules: self.modules.update(i, m), ..self }
    }

    /// One more holder of a loaded image.
    pub open spec fn held(self, name: Seq<char>) -> LoaderView {
        match first_index(self.modules, is_named(name)) {
            None => self,
            Some(i) => {
                let m = self.modules[i];
                self.with_module(
                    i,
                    ModuleView {
                        ref_count: if m.ref_count < u32::MAX {
                            (m.ref_count + 1) as u32
                        } else {
                            m.ref_count
                        },
                        ..m
                    },
                )
            },
        }
    }

    /// The handle that a library has without being loaded now: a known one is
    /// held once more, and an emulated one gets a handle.
    pub open spec fn library(self, name: Seq<char>) -> Option<Handled> {
        if self.by_name.contains_key(name) {
            Some(Handled { dll: self.held(name), handle: self.by_name[name] })
        } else if is_emulated(name) {
            Some(self.system_handle(name))
        } else {
            None
        }
    }

    /// The handle of a known or emulated library, else 0.
    pub open spec fn module_handle(self, name: Seq<char>) -> Handled {
        if self.by_name.contains_key(name) {
            Handled { dll: self, handle: self.by_name[name] }
        } else if is_emulated(name) {
            self.system_handle(name)
        } else {
            Handled { dll: self, handle: 0 }
        }
    }

    /// One holder of an image less. The last one leaves its entry point to be
    /// told of the end, once. Other known handles are granted without effect.
    pub open spec fn released(self, image_base: u64, h: u64) -> Granted {
        if h == image_base {
            Granted { dll: self, ok: true }
        } else {
            match first_index(self.modules, is_mapped(h)) {
                Some(i) => {
                    let m = self.modules[i];
                    let count: u32 = if m.ref_count > 0 {
                        (m.ref_count - 1) as u32
                    } else {
                        0
                    };
                    let last = count == 0 && m.attached && m.entry != 0;
                    Granted {
                        dll: LoaderView {
                            pending_detach: if last {
                                self.pending_detach.push((m.entry, m.base))
                            } else {
                                self.pending_detach
                            },
                            ..self.with_module(
                                i,
                                ModuleView {
                                    ref_count: count,
                                    attached: m.attached && !last,
                                    ..m
                                },
                            )
                        },
                        ok: true,
                    }
                },
                None => Granted {
                    dll: self,
                    ok: self.system.contains_key(h) || exists|k: Seq<char>| #[trigger]
                        self.by_name.contains_key(k) && self.by_name[k] == h,
                },
            }
        }
    }

    /// No thread notifications for an image from now on.
    pub open spec fn silenced(self, image_base: u64, h: u64) -> Granted {
        if h == image_base {
            Granted { dll: self, ok: true }
        } else {
            match first_index(self.modules, is_mapped(h)) {
                Some(i) => Granted {
                    dll: self.with_module(i, ModuleView { quiet: true, ..self.modules[i] }),
                    ok: true,
                },
                None => Granted { dll: self, ok: self.system.contains_key(h) },
            }
        }
    }

    /// The image at an address counts as told of the process.
    pub open spec fn attached_one(self, base: u64) -> LoaderView {
        match first_index(self.modules, is_mapped(base)) {
            Some(i) => self.with_module(i, ModuleView { attached: true, ..self.modules[i] }),
            None => self,
        }
    }

    /// The images behind some entry points count as told of the process.
    pub open spec fn attached(self, s: Seq<(u64, u64)>) -> LoaderView
        decreases s.len(),
    {
        if s.len() == 0 {
            self
        } else {
            self.attached(s.drop_last()).attached_one(s.last().1)
        }
    }

    /// The address of an image; an emulated library has none.
    pub open spec fn image_of(self, name: Seq<char>) -> Option<u64> {
        if self.by_name.contains_key(name) && self.exports.contains_key(self.by_name[name]) {
            Some(self.by_name[name])
        } else {
            None
        }
    }

    /// The address of code that an image exports by name.
    pub open spec fn code_of(self, name: Seq<char>, symbol: Seq<char>) -> Option<int> {
        match self.image_of(name) {
            None => None,
            Some(base) => match first_index(self.exports[base], code_named(symbol)) {
                None => None,
                Some(i) => Some(base + self.exports[base][i].rva),
            },
        }
    }

    /// Where the arena goes on.
    pub open spec fn arena(self, dll_base: u64) -> LoaderView {
        LoaderView {
            arena_next: if self.arena_next == 0 {
                dll_base
            } else {
                self.arena_next
            },
            ..self
        }
    }

    /// Where an image of `size` bytes goes, in whole pages; the arena may be too
    /// small for it.
    pub open spec fn place(self, dll_base: u64, dll_size: u64, size: u32) -> Option<int> {
        let base = round_up(self.arena(dll_base).arena_next as int, 0x1000);
        let len = max_int(round_up(size as int, 0x1000), 0x1000);
        if base + len > dll_base + dll_size || base + len > u64::MAX {
            None
        } else {
            Some(base)
        }
    }

    /// The arena after room for an image was asked for.
    pub open spec fn placed(self, dll_base: u64, dll_size: u64, size: u32) -> LoaderView {
        match self.place(dll_base, dll_size, size) {
            None => self.arena(dll_base),
            Some(base) => LoaderView {
                arena_next: (base + max_int(round_up(size as int, 0x1000), 0x1000)) as u64,
                ..self
            },
        }
    }
}

/// An image lies inside the arena, on a page, and behind every earlier one.
pub proof fn lemma_place(v: LoaderView, dll_base: u64, dll_size: u64, size: u32)
    requires
        v.place(dll_base, dll_size, size) is Some,
    ensures
        ({
            let base = v.place(dll_base, dll_size, size)->0;
            &&& base % 0x1000 == 0
            &&& v.arena(dll_base).arena_next <= base
            &&& base + size <= dll_base + dll_size
            &&& base + size <= v.placed(dll_base, dll_size, size).arena_next
        }),
{
    lemma_round_up(v.arena(dll_base).arena_next as int, 0x1000);
    lemma_round_up(size as int, 0x1000);
}

/// Asking twice for an emulated library gives the same handle, which leads back
/// to its name.
pub proof fn lemma_system_handle_stable(v: LoaderView, name: Seq<char>)
    ensures
        ({
            let a = v.system_handle(name);
            let b = a.dll.system_handle(name);
            &&& b.handle == a.handle
            &&& b.dll == a.dll
            &&& !v.by_name.contains_key(name) ==> a.dll.system[a.handle] == name
        }),
{
}

/// Loading and freeing a library that is already held leaves it as it was.
pub proof fn lemma_free_undoes_load(v: LoaderView, image_base: u64, name: Seq<char>, i: int)
    requires
        first_index(v.modules, is_named(name)) == Some(i),
        0 <= i < v.modules.len(),
        first_index(v.modules, is_mapped(v.modules[i].base)) == Some(i),
        v.modules[i].base != image_base,
        0 < v.modules[i].ref_count < u32::MAX,
    ensures
        v.held(name).released(image_base, v.modules[i].base).dll == v,
        v.held(name).released(image_base, v.modules[i].base).ok,
{
    let w = v.held(name);
    let p = is_mapped(v.modules[i].base);
    lemma_first_index(v.modules, p);
    assert forall|j: int| 0 <= j < i implies !p(#[trigger] w.modules[j]) by {
        assert(!p(v.modules[j]));
    }
    lemma_first_index_is(w.modules, p, i);
    assert(w.released(image_base, v.modules[i].base).dll =~= v);
}

/// Once all modules were told of the end of the process, none is told again.
pub proof fn lemma_departed_once(s: Seq<ModuleView>)
    ensures
        exit_targets(all_departed(s)) == Seq::<(u64, u64)>::empty(),
    decreases s.len(),
{
    if s.len() > 0 {
        assert(all_departed(s).drop_last() =~= all_departed(s.drop_last()));
        lemma_departed_once(s.drop_last());
        assert(departing(departed(s.last())) =~= Seq::empty());
    }
}

impl Loader {
    /// Nothing is loaded.
    pub fn new() -> (l: Loader)
        ensures
            l@ == LoaderView::empty(),
    {
        let l = Loader {
            arena_next: 0,
            by_name: StrMap::new(),
            exports: HashMap::new(),
            modules: Vec::new(),
            system: HashMap::new(),
            next_system: 0,
            pending_attach: Vec::new(),
            pending_detach: Vec::new(),
            loading: Vec::new(),
            ldr_next: 0,
            ldr_data: 0,
            lock: 0,
            lock_depth: 0,
            api_set_map: 0,
        };
        assert(l@ =~= LoaderView::empty());
        l
    }

    /// The handle of an emulated library.
    pub fn system_handle(&mut self, name: &str) -> (h: u64)
        requires
            old(self)@.has_room(),
        ensures
            (Handled { dll: final(self)@, handle: h }) == old(self)@.system_handle(name@),
    {
        let ghost v = self@;
        if let Some(h) = self.by_name.get(name) {
            return *h;
        }
        let h: u64 = if self.next_system == 0 {
            FIRST_SYSTEM
        } else {
            self.next_system
        };
        self.next_system = h + 0x1_0000;
        let cs = chars_of(name);
        let _a = self.by_name.insert(string_of(&cs), h);
        let _b = self.system.insert(h, string_of(&cs));
        assert(self@ =~= v.system_handle(name@).dll);
        h
    }

    /// The first module with a name.
    fn find_named(&self, name: &str) -> (r: Option<usize>)
        ensures
            match r {
                Some(i) => i < self.modules.len() && first_index(self@.modules, is_named(name@))
                    == Some(i as int),
                None => first_index(self@.modules, is_named(name@)) is None,
            },
    {
        let mut i: usize = 0;
        while i < self.modules.len()
            invariant
                i <= self.modules.len(),
                forall|j: int| 0 <= j < i ==> !is_named(name@)(#[trigger] self@.modules[j]),
            decreases self.modules.len() - i,
        {
            assert(self@.modules[i as int] == self.modules[i as int]@);
            if str_eq(self.modules[i].name.as_str(), name) {
                proof {
                    lemma_first_index_is(self@.modules, is_named(name@), i as int);
                }
                return Some(i);
            }
            i = i + 1;
        }
        proof {
            lemma_first_index_none(self@.modules, is_named(name@));
        }
        None
    }

    /// The first module at an address.
    fn find_mapped(&self, base: u64) -> (r: Option<usize>)
        ensures
            match r {
                Some(i) => i < self.modules.len() && first_index(self@.modules, is_mapped(base))
                    == Some(i as int),
                None => first_index(self@.modules, is_mapped(base)) is None,
            },
    {
        let mut i: usize = 0;
        while i < self.modules.len()
            invariant
                i <= self.modules.len(),
                forall|j: int| 0 <= j < i ==> !is_mapped(base)(#[trigger] self@.modules[j]),
            decreases self.modules.len() - i,
        {
            assert(self@.modules[i as int] == self.modules[i as int]@);
            if self.modules[i].base == base {
                proof {
                    lemma_first_index_is(self@.modules, is_mapped(base), i as int);
                }
                return Some(i);
            }
            i = i + 1;
        }
        proof {
            lemma_first_index_none(self@.modules, is_mapped(base));
        }
        None
    }

    /// The handle that a library has without being loaded now.
    pub fn library(&mut self, name: &str) -> (r: Option<u64>)
        requires
            old(self)@.has_room(),
        ensures
            match r {
                Some(h) => old(self)@.library(name@) == Some(
                    Handled { dll: final(self)@, handle: h },
                ),
                None => old(self)@.library(name@) is None && final(self)@ == old(self)@,
            },
    {
        let ghost v = self@;
        let known: Option<u64> = match self.by_name.get(name) {
            Some(h) => Some(*h),
            None => None,
        };
        match known {
            Some(h) => {
                if let Some(i) = self.find_named(name) {
                    let mut m = self.modules.remove(i);
                    if m.ref_count < u32::MAX {
                        m.ref_count = m.ref_count + 1;
                    }
                    self.modules.insert(i, m);
                    assert(self@.modules =~= v.held(name@).modules);
                }
                Some(h)
            },
            None => if emulated(name) {
                Some(self.system_handle(name))
            } else {
                None
            },
        }
    }

    /// The handle of a known or emulated library, else 0.
    pub fn module_handle(&mut self, name: &str) -> (h: u64)
        requires
            old(self)@.has_room(),
        ensures
            (Handled { dll: final(self)@, handle: h }) == old(self)@.module_handle(name@),
    {
        if let Some(h) = self.by_name.get(name) {
            return *h;
        }
        if emulated(name) {
            return self.system_handle(name);
        }
        0
    }

    /// Whether some name leads to a handle.
    fn is_known(&self, h: u64) -> (r: bool)
        ensures
            r == exists|k: Seq<char>| #[trigger]
                self@.by_name.contains_key(k) && self@.by_name[k] == h,
    {
        let n: usize = self.by_name.len();
        self.by_name.keys_listed();
        let mut i: usize = 0;
        while i < n
            invariant
                i <= n == self.by_name.keys().len(),
                forall|j: int|
                    0 <= j < i ==> self.by_name@[#[trigger] self.by_name.keys()[j]] != h,
            decreases n - i,
        {
            if *self.by_name.value_at(i) == h {
                assert(self@.by_name.contains_key(self.by_name.keys()[i as int]));
                return true;
            }
            i = i + 1;
        }
        assert forall|k: Seq<char>| #[trigger] self.by_name@.contains_key(k) implies self.by_name@[k]
            != h by {
            assert(self.by_name.keys().contains(k));
            let j = choose|j: int| 0 <= j < self.by_name.keys().len() && self.by_name.keys()[j] == k;
            assert(self.by_name@[self.by_name.keys()[j]] != h);
        }
        false
    }

    /// Let go of a library.
    pub fn free_library(&mut self, image_base: u64, h: u64) -> (r: bool)
        ensures
            (Granted { dll: final(self)@, ok: r }) == old(self)@.released(image_base, h),
    {
        let ghost v = self@;
        if h == image_base {
            return true;
        }
        if let Some(i) = self.find_mapped(h) {
            let mut m = self.modules.remove(i);
            if m.ref_count > 0 {
                m.ref_count = m.ref_count - 1;
            }
            if m.ref_count == 0 && m.attached && m.entry != 0 {
                m.attached = false;
                self.pending_detach.push((m.entry, m.base));
            }
            self.modules.insert(i, m);
            assert(self@ =~= v.released(image_base, h).dll);
            return true;
        }
        self.system.contains_key(&h) || self.is_known(h)
    }

    /// Tell a library nothing of threads from now on.
    pub fn disable_thread_library_calls(&mut self, image_base: u64, h: u64) -> (r: bool)
        ensures
            (Granted { dll: final(self)@, ok: r }) == old(self)@.silenced(image_base, h),
    {
        let ghost v = self@;
        if h == image_base {
            return true;
        }
        if let Some(i) = self.find_mapped(h) {
            let mut m = self.modules.remove(i);
            m.quiet = true;
            self.modules.insert(i, m);
            assert(self@ =~= v.silenced(image_base, h).dll);
            return true;
        }
        self.system.contains_key(&h)
    }

    /// Count the images behind some entry points as told of the process.
    pub fn mark_attached(&mut self, s: &Vec<(u64, u64)>)
        ensures
            final(self)@ == old(self)@.attached(s@),
            final(self)@ == (LoaderView { modules: final(self)@.modules, ..old(self)@ }),
    {
        let ghost v = self@;
        let mut k: usize = 0;
        assert(s@.take(0) =~= Seq::empty());
        while k < s.len()
            invariant
                k <= s.len(),
                self@ == v.attached(s@.take(k as int)),
                v == old(self)@,
                self@ == (LoaderView { modules: self@.modules, ..v }),
            decreases s.len() - k,
        {
            let ghost w = self@;
            if let Some(i) = self.find_mapped(s[k].1) {
                let mut m = self.modules.remove(i);
                m.attached = true;
                self.modules.insert(i, m);
            }
            assert(self@ =~= w.attached_one(s@[k as int].1));
            k = k + 1;
            assert(s@.take(k as int).drop_last() =~= s@.take(k - 1));
        }
        assert(s@.take(k as int) =~= s@);
    }

    /// The modules that are told of new threads, in the order of their loading.
    pub fn thread_notify_targets(&self) -> (r: Vec<(u64, u64)>)
        ensures
            r@ == thread_targets(self@.modules),
    {
        let mut out: Vec<(u64, u64)> = Vec::new();
        let mut i: usize = 0;
        let ghost ms = self@.modules;
        assert(ms.take(0) =~= Seq::empty());
        assert(out@ =~= Seq::empty());
        while i < self.modules.len()
            invariant
                i <= self.modules.len(),
                ms == self@.modules,
                out@ == thread_targets(ms.take(i as int)),
            decreases self.modules.len() - i,
        {
            let m = &self.modules[i];
            assert(ms[i as int] == m@);
            assert(ms.take(i + 1).drop_last() =~= ms.take(i as int));
            let ghost before = out@;
            if m.entry != 0 && m.attached && !m.quiet {
                out.push((m.entry, m.base));
            }
            assert(out@ =~= before + notified(ms[i as int]));
            i = i + 1;
        }
        assert(ms.take(i as int) =~= ms);
        out
    }

    /// The modules to tell of the end of the process, the last loaded first; each
    /// is handed out once.
    pub fn take_process_detach_targets(&mut self) -> (r: Vec<(u64, u64)>)
        ensures
            r@ == exit_targets(old(self)@.modules),
            final(self)@ == (LoaderView { modules: all_departed(old(self)@.modules), ..old(self)@ }),
    {
        let ghost v = self@;
        let n: usize = self.modules.len();
        let mut out: Vec<(u64, u64)> = Vec::new();
        let mut k: usize = n;
        assert(v.modules.take(n as int) =~= v.modules);
        assert(out@ =~= Seq::empty());
        while k > 0
            invariant
                k <= n == self.modules.len() == v.modules.len(),
                exit_targets(v.modules) == out@ + exit_targets(v.modules.take(k as int)),
                self@ == (LoaderView { modules: self@.modules, ..v }),
                forall|j: int| 0 <= j < k ==> #[trigger] self@.modules[j] == v.modules[j],
                forall|j: int|
                    k <= j < n ==> #[trigger] self@.modules[j] == departed(v.modules[j]),
            decreases k,
        {
            let i: usize = k - 1;
            let ghost w = self@;
            let ghost before = out@;
            let mut m = self.modules.remove(i);
            assert(m@ == w.modules[i as int]);
            if m.entry != 0 && m.attached {
                m.attached = false;
                out.push((m.entry, m.base));
            }
            let ghost mv = m@;
            self.modules.insert(i, m);
            proof {
                assert(self@.modules =~= w.modules.update(i as int, mv));
                assert(v.modules.take(k as int).drop_last() =~= v.modules.take(i as int));
                assert(before + (departing(v.modules[i as int]) + exit_targets(
                    v.modules.take(i as int),
                )) =~= out@ + exit_targets(v.modules.take(i as int)));
                assert forall|j: int| 0 <= j < i implies #[trigger] self@.modules[j]
                    == v.modules[j] by {
                    assert(w.modules[j] == v.modules[j]);
                }
                assert forall|j: int| i <= j < n implies #[trigger] self@.modules[j] == departed(
                    v.modules[j],
                ) by {
                    if j > i {
                        assert(w.modules[j] == departed(v.modules[j]));
                    }
                }
            }
            k = i;
        }
        assert(v.modules.take(0) =~= Seq::empty());
        assert(out@ + Seq::<(u64, u64)>::empty() =~= out@);
        assert(self@.modules =~= all_departed(v.modules));
        out
    }

    /// The address of an image.
    pub fn module_base(&self, name: &str) -> (r: Option<u64>)
        ensures
            r == self@.image_of(name@),
    {
        match self.by_name.get(name) {
            Some(b) => if self.exports.contains_key(b) {
                Some(*b)
            } else {
                None
            },
            None => None,
        }
    }

    /// The address of code that an image exports by name.
    pub fn export_address(&self, name: &str, symbol: &str) -> (r: Option<u64>)
        ensures
            match self@.code_of(name@, symbol@) {
                Some(a) => r == Some(crate::mem::ga(0, a)),
                None => r is None,
            },
    {
        let base: u64 = match self.module_base(name) {
            Some(b) => b,
            None => {
                return None;
            },
        };
        match self.exports.get(&base) {
            Some(list) => match find_named(list, symbol, true) {
                Some(i) => {
                    proof {
                        assert(self@.exports[base] == export_views(list@));
                        assert(export_views(list@)[i as int] == list@[i as int]@);
                    }
                    Some(crate::mem::at(base, list[i].rva as u64))
                },
                None => None,
            },
            None => None,
        }
    }

    /// Room for an image of `size` bytes.
    pub fn reserve_image(&mut self, dll_base: u64, dll_size: u64, size: u32) -> (r: Option<u64>)
        ensures
            final(self)@ == old(self)@.placed(dll_base, dll_size, size),
            match r {
                Some(b) => old(self)@.place(dll_base, dll_size, size) == Some(b as int),
                None => old(self)@.place(dll_base, dll_size, size) is None,
            },
    {
        let ghost v = self@;
        if self.arena_next == 0 {
            self.arena_next = dll_base;
        }
        proof {
            lemma_round_up(self.arena_next as int, 0x1000);
            lemma_round_up(size as int, 0x1000);
        }
        let base: u64 = match align_up(self.arena_next, 0x1000) {
            Some(b) => b,
            None => {
                return None;
            },
        };
        let pages: u64 = match align_up(size as u64, 0x1000) {
            Some(p) => p,
            None => {
                return None;
            },
        };
        let len: u64 = if pages < 0x1000 {
            0x1000
        } else {
            pages
        };
        let end: u128 = base as u128 + len as u128;
        if end > dll_base as u128 + dll_size as u128 || end > u64::MAX as u128 {
            return None;
        }
        self.arena_next = base + len;
        Some(base)
    }
}

} // verus!
