//! What a whole load does: which images it maps, and in which order their entry
//! points are queued.
//!
//! A load is a series of questions to the host. Here it is followed from its start
//! through any series of answers.

use vstd::prelude::*;

use crate::config::WinConfig;
use crate::loader::{host_name, is_emulated, lemma_place, LoaderView};
use crate::mem::MemView;
use crate::plugin::{
    entry_point, found_out, goes_on, is_present, known_with, mapped_frame, needs, relocated_out,
    resolved_out, started, top_asks, wanted, AskedView, FrameView, LoadView, PeImportView, PeView,
};
use crate::section::ImageSectionView;
use crate::thunk::ThunkView;

verus! {

// ---- runs -------------------------------------------------------------------

/// An answer of the host.
pub enum Answer {
    /// The file of a library, with its path.
    File(Option<(Seq<char>, PeView)>),
    /// The relocated parts of an image.
    Parts(Option<Seq<ImageSectionView>>),
    /// The guest code behind each import.
    Code(Seq<Option<u64>>),
}

/// A load in progress, with what it did so far.
pub struct LoadRun {
    pub dll: LoaderView,
    pub mem: MemView,
    pub thunks: ThunkView,
    pub load: LoadView,
    /// The images that were mapped, in this order.
    pub mapped: Seq<FrameView>,
    /// The images that were bound and listed, in this order.
    pub done: Seq<FrameView>,
    /// The libraries that were asked for and left out.
    pub refused: Seq<Seq<char>>,
}

/// The start of a load.
pub open spec fn begun(
    dll: LoaderView,
    mem: MemView,
    thunks: ThunkView,
    path: Seq<char>,
    name: Seq<char>,
) -> LoadRun {
    LoadRun {
        dll,
        mem,
        thunks,
        load: started(dll, path, name, false),
        mapped: Seq::empty(),
        done: Seq::empty(),
        refused: Seq::empty(),
    }
}

/// What an answer leads to; `run` tells whether entry points are queued. An answer to
/// another question changes nothing.
pub open spec fn stepped(cfg: WinConfig, run: bool, r: LoadRun, a: Answer) -> LoadRun {
    match (r.load.asked, a) {
        (AskedView::Find { path: _, name }, Answer::File(file)) => {
            let o = found_out(cfg, r.dll, r.load, file);
            LoadRun {
                dll: o.0,
                load: o.1,
                refused: if o.1.asked is Relocate {
                    r.refused
                } else {
                    r.refused.push(name)
                },
                ..r
            }
        },
        (AskedView::Relocate { name, full_path: _, base: _, image: _ }, Answer::Parts(parts)) => {
            let o = relocated_out(r.dll, r.mem, r.thunks, r.load, parts);
            LoadRun {
                dll: o.dll,
                mem: o.mem,
                load: o.load,
                mapped: if parts is Some && o.r is Ok {
                    r.mapped.push(mapped_frame(r.dll, r.load))
                } else {
                    r.mapped
                },
                refused: if parts is None {
                    r.refused.push(name)
                } else {
                    r.refused
                },
                ..r
            }
        },
        (AskedView::Resolve, Answer::Code(code)) => {
            let o = resolved_out(cfg, r.dll, r.mem, r.thunks, r.load, code, run);
            LoadRun {
                dll: o.dll,
                mem: o.mem,
                thunks: o.thunks,
                load: o.load,
                done: if o.r is Ok {
                    r.done.push(r.load.frames.last())
                } else {
                    r.done
                },
                ..r
            }
        },
        _ => r,
    }
}

/// What a series of answers leads to.
pub open spec fn went(cfg: WinConfig, run: bool, r: LoadRun, answers: Seq<Answer>) -> LoadRun
    decreases answers.len(),
{
    if answers.len() == 0 {
        r
    } else {
        stepped(cfg, run, went(cfg, run, r, answers.drop_last()), answers.last())
    }
}

/// The entry points that some images queue, in order.
pub open spec fn queue(done: Seq<FrameView>, run: bool) -> Seq<(u64, u64)>
    decreases done.len(),
{
    if done.len() == 0 {
        Seq::empty()
    } else {
        let f = done.last();
        let e = entry_point(f.base, f.entry_rva);
        let before = queue(done.drop_last(), run);
        if e != 0 && run {
            before.push((e, f.base))
        } else {
            before
        }
    }
}

// ---- images and what they need ----------------------------------------------

/// Whether an image of that name is among some.
pub open spec fn has_image(fs: Seq<FrameView>, name: Seq<char>) -> bool {
    exists|i: int| 0 <= i < fs.len() && (#[trigger] fs[i]).name == name
}

/// No two images have the same name.
pub open spec fn distinct(fs: Seq<FrameView>) -> bool {
    forall|i: int, j: int|
        0 <= i < j < fs.len() ==> (#[trigger] fs[i]).name != (#[trigger] fs[j]).name
}

/// Whether an image imports from a library.
pub open spec fn imports_from(imports: Seq<PeImportView>, name: Seq<char>) -> bool {
    exists|k: int|
        0 <= k < imports.len() && host_name((#[trigger] imports[k]).dll, imports[k].host) == name
}

/// Whether an image is one of those that were mapped.
pub open spec fn is_image(mapped: Seq<FrameView>, f: FrameView) -> bool {
    exists|i: int|
        0 <= i < mapped.len() && (#[trigger] mapped[i]).name == f.name && mapped[i].base == f.base
            && mapped[i].entry_rva == f.entry_rva && mapped[i].imports == f.imports
}

/// The library that is being asked for.
pub open spec fn current(a: AskedView) -> Option<Seq<char>> {
    match a {
        AskedView::Find { path: _, name } => Some(name),
        AskedView::Relocate { name, full_path: _, base: _, image: _ } => Some(name),
        _ => None,
    }
}

/// What an image needs is still on its list, or there, or was left out, or is being
/// asked for.
pub open spec fn accounted(r: LoadRun, f: FrameView, cur: Option<Seq<char>>) -> bool {
    forall|d: Seq<char>| #[trigger]
        imports_from(f.imports, d) && !is_emulated(d) ==> f.deps.contains(d) || is_present(r.dll, d)
            || r.refused.contains(d) || cur == Some(d)
}

/// What is on the list of an image is a library that it imports from.
pub open spec fn listed_needs(f: FrameView) -> bool {
    forall|d: Seq<char>| #[trigger]
        f.deps.contains(d) ==> imports_from(f.imports, d) && !is_emulated(d)
}

/// The names of some images.
pub open spec fn names_of(fs: Seq<FrameView>) -> Seq<Seq<char>> {
    Seq::new(fs.len(), |i: int| fs[i].name)
}

// ---- what holds throughout --------------------------------------------------

/// What a load did holds together: each image was mapped once, on a page behind the
/// earlier ones, and queued at most once.
pub open spec fn history_ok(r: LoadRun, d0: LoaderView, run: bool) -> bool {
    &&& distinct(r.mapped)
    &&& distinct(r.done)
    &&& forall|i: int|
        0 <= i < r.mapped.len() ==> !is_present(d0, (#[trigger] r.mapped[i]).name) && !is_emulated(
            r.mapped[i].name,
        ) && r.mapped[i].base % 0x1000 == 0
    &&& forall|i: int, j: int|
        0 <= i < j < r.mapped.len() ==> (#[trigger] r.mapped[i]).base < (
        #[trigger] r.mapped[j]).base
    &&& forall|j: int| 0 <= j < r.done.len() ==> is_image(r.mapped, #[trigger] r.done[j])
    &&& r.dll.pending_attach == d0.pending_attach + queue(r.done, run)
}

/// The images that wait hold together: each was mapped and is not done, each imports
/// from the one above it, and the lowest is the one that the load is for.
pub open spec fn stack_ok(
    r: LoadRun,
    fs: Seq<FrameView>,
    cur: Option<Seq<char>>,
    d0: LoaderView,
    root: Seq<char>,
) -> bool {
    &&& distinct(fs)
    &&& forall|i: int| 0 <= i < fs.len() ==> is_image(r.mapped, #[trigger] fs[i])
    &&& forall|i: int, j: int|
        0 <= i < fs.len() && 0 <= j < r.done.len() ==> (#[trigger] fs[i]).name != (
        #[trigger] r.done[j]).name
    &&& forall|i: int|
        0 <= i < r.mapped.len() ==> has_image(fs, (#[trigger] r.mapped[i]).name) || has_image(
            r.done,
            r.mapped[i].name,
        )
    &&& r.mapped.len() == fs.len() + r.done.len()
    &&& forall|n: Seq<char>| #[trigger]
        r.dll.by_name.contains_key(n) <==> d0.by_name.contains_key(n) || has_image(r.mapped, n)
    &&& forall|i: int|
        0 <= i < r.mapped.len() ==> r.dll.by_name[(#[trigger] r.mapped[i]).name]
            == r.mapped[i].base
    &&& r.dll.loading == d0.loading + names_of(fs)
    &&& forall|k: int|
        0 <= k < fs.len() - 1 ==> imports_from((#[trigger] fs[k]).imports, fs[k + 1].name)
    &&& fs.len() > 0 ==> fs[0].name == root
    &&& forall|k: int| 0 <= k < fs.len() ==> listed_needs(#[trigger] fs[k])
    &&& forall|k: int|
        0 <= k < fs.len() ==> accounted(
            r,
            #[trigger] fs[k],
            if k == fs.len() - 1 {
                cur
            } else {
                None
            },
        )
}

/// The question holds together: it is for a library that is not there and that the
/// image on top imports from, and an image goes behind all that were mapped.
pub open spec fn question_ok(r: LoadRun, root: Seq<char>) -> bool {
    let fs = r.load.frames;
    &&& current(r.load.asked) matches Some(n) ==> {
        &&& !is_present(r.dll, n)
        &&& !is_emulated(n)
        &&& fs.len() == 0 ==> n == root
        &&& fs.len() > 0 ==> imports_from(fs.last().imports, n)
    }
    &&& r.load.asked is Resolve ==> fs.len() > 0 && fs.last().deps.len() == 0
    &&& r.load.asked is Relocate ==> r.load.asked->base % 0x1000 == 0 && r.load.asked->base
        < r.dll.arena_next
}

/// Every image that was mapped lies below `end`.
pub open spec fn all_below(r: LoadRun, end: u64) -> bool {
    forall|i: int| 0 <= i < r.mapped.len() ==> (#[trigger] r.mapped[i]).base < end
}

/// A load holds together.
pub open spec fn run_ok(r: LoadRun, d0: LoaderView, root: Seq<char>, run: bool) -> bool {
    &&& history_ok(r, d0, run)
    &&& !r.load.core
    &&& !(r.load.asked is Finished) ==> {
        &&& stack_ok(r, r.load.frames, current(r.load.asked), d0, root)
        &&& question_ok(r, root)
        &&& all_below(
            r,
            if r.load.asked is Relocate {
                r.load.asked->base
            } else {
                r.dll.arena_next
            },
        )
    }
    &&& r.load.asked matches AskedView::Finished(Some(base)) ==> {
        &&& r.done.len() > 0
        &&& r.done.last().name == root
        &&& r.done.last().base == base
        &&& r.done.len() == r.mapped.len()
        &&& forall|i: int| 0 <= i < r.mapped.len() ==> has_image(r.done, (#[trigger] r.mapped[i]).name)
        &&& forall|i: int|
            0 <= i < r.mapped.len() ==> r.dll.by_name.contains_key((#[trigger] r.mapped[i]).name)
                && r.dll.by_name[r.mapped[i].name] == r.mapped[i].base
    }
}

// ---- proofs -----------------------------------------------------------------

/// What remains of a list: nothing that is missing is dropped, and its head is missing.
proof fn lemma_wanted(dll: LoaderView, deps: Seq<Seq<char>>)
    ensures
        ({
            let w = wanted(dll, deps);
            &&& w.len() > 0 ==> !is_present(dll, w[0])
            &&& forall|d: Seq<char>| #[trigger]
                deps.contains(d) ==> is_present(dll, d) || w.contains(d)
            &&& forall|d: Seq<char>| #[trigger] w.contains(d) ==> deps.contains(d)
        }),
    decreases deps.len(),
{
    if deps.len() > 0 && is_present(dll, deps[0]) {
        let rest = deps.skip(1);
        lemma_wanted(dll, rest);
        let w = wanted(dll, deps);
        assert forall|d: Seq<char>| #[trigger] deps.contains(d) implies is_present(dll, d)
            || w.contains(d) by {
            let k = choose|k: int| 0 <= k < deps.len() && deps[k] == d;
            if k > 0 {
                assert(rest[k - 1] == d);
                assert(rest.contains(d));
            }
        }
        assert forall|d: Seq<char>| #[trigger] w.contains(d) implies deps.contains(d) by {
            assert(rest.contains(d));
            let k = choose|k: int| 0 <= k < rest.len() && rest[k] == d;
            assert(deps[k + 1] == d);
        }
    }
}

/// What some imports need: every library that is neither emulated nor known, and no
/// other.
proof fn lemma_needs(known: Map<Seq<char>, u64>, imports: Seq<PeImportView>)
    ensures
        forall|d: Seq<char>| #[trigger]
            imports_from(imports, d) && !is_emulated(d) ==> known.contains_key(d) || needs(
                known,
                imports,
            ).contains(d),
        forall|d: Seq<char>| #[trigger]
            needs(known, imports).contains(d) ==> imports_from(imports, d) && !is_emulated(d),
    decreases imports.len(),
{
    if imports.len() > 0 {
        let rest = imports.drop_last();
        let last = imports.last();
        let dep = host_name(last.dll, last.host);
        lemma_needs(known, rest);
        let b = needs(known, rest);
        let n = needs(known, imports);
        assert forall|d: Seq<char>| #[trigger]
            imports_from(imports, d) && !is_emulated(d) implies known.contains_key(d)
            || n.contains(d) by {
            let k = choose|k: int|
                0 <= k < imports.len() && host_name((#[trigger] imports[k]).dll, imports[k].host)
                    == d;
            if k < rest.len() {
                assert(rest[k] == imports[k]);
                assert(imports_from(rest, d));
                if !known.contains_key(d) {
                    assert(b.contains(d));
                    let j = choose|j: int| 0 <= j < b.len() && b[j] == d;
                    assert(n[j] == d);
                }
            } else if n.len() > b.len() {
                assert(n[b.len() as int] == d);
            }
        }
        assert forall|d: Seq<char>| #[trigger] n.contains(d) implies imports_from(imports, d)
            && !is_emulated(d) by {
            let j = choose|j: int| 0 <= j < n.len() && n[j] == d;
            if j < b.len() {
                assert(b[j] == d);
                assert(b.contains(d));
                let k = choose|k: int|
                    0 <= k < rest.len() && host_name((#[trigger] rest[k]).dll, rest[k].host) == d;
                assert(imports[k] == rest[k]);
            } else {
                assert(imports[imports.len() - 1] == last);
            }
        }
    }
}

/// An image that asks keeps the stack together, and its question does too.
proof fn lemma_top_asks(r: LoadRun, fs: Seq<FrameView>, d0: LoaderView, root: Seq<char>)
    requires
        stack_ok(r, fs, None, d0, root),
        fs.len() > 0,
    ensures
        ({
            let l = top_asks(r.dll, fs, false);
            let s = LoadRun { load: l, ..r };
            &&& stack_ok(s, l.frames, current(l.asked), d0, root)
            &&& question_ok(s, root)
            &&& !(l.asked is Relocate)
            &&& !(l.asked is Finished)
            &&& !l.core
        }),
{
    let f = fs.last();
    let w = wanted(r.dll, f.deps);
    lemma_wanted(r.dll, f.deps);
    let l = top_asks(r.dll, fs, false);
    let s = LoadRun { load: l, ..r };
    let gs = l.frames;
    let g = gs.last();
    let last = fs.len() - 1;
    assert(gs.len() == fs.len());
    assert forall|k: int| 0 <= k < last implies gs[k] == fs[k] by {}
    assert(fs[last] == f);
    assert(listed_needs(f));
    assert(accounted(r, f, None));
    assert(w.len() > 0 ==> w.contains(w[0]));
    assert forall|d: Seq<char>| #[trigger] g.deps.contains(d) implies w.contains(d) by {
        let k = choose|k: int| 0 <= k < g.deps.len() && g.deps[k] == d;
        assert(w[k + 1] == d);
    }
    assert forall|k: int| 0 <= k < gs.len() implies listed_needs(#[trigger] gs[k]) by {
        if k < last {
            assert(listed_needs(fs[k]));
        } else {
            assert forall|d: Seq<char>| #[trigger] g.deps.contains(d) implies imports_from(
                g.imports,
                d,
            ) && !is_emulated(d) by {
                assert(w.contains(d));
                assert(f.deps.contains(d));
            }
        }
    }
    assert forall|k: int| 0 <= k < gs.len() implies accounted(
        s,
        #[trigger] gs[k],
        if k == gs.len() - 1 {
            current(l.asked)
        } else {
            None
        },
    ) by {
        if k < last {
            assert(accounted(r, fs[k], None));
        } else {
            assert forall|d: Seq<char>| #[trigger]
                imports_from(g.imports, d) && !is_emulated(d) implies g.deps.contains(d)
                || is_present(s.dll, d) || s.refused.contains(d) || current(l.asked) == Some(
                d,
            ) by {
                assert(imports_from(f.imports, d));
                if f.deps.contains(d) && !is_present(r.dll, d) {
                    assert(w.contains(d));
                    let j = choose|j: int| 0 <= j < w.len() && w[j] == d;
                    if j > 0 {
                        assert(g.deps[j - 1] == d);
                    }
                }
            }
        }
    }
    assert forall|i: int| 0 <= i < gs.len() implies is_image(s.mapped, #[trigger] gs[i]) by {
        assert(is_image(r.mapped, fs[i]));
        let j = choose|j: int|
            0 <= j < r.mapped.len() && (#[trigger] r.mapped[j]).name == fs[i].name
                && r.mapped[j].base == fs[i].base && r.mapped[j].entry_rva == fs[i].entry_rva
                && r.mapped[j].imports == fs[i].imports;
        assert(s.mapped[j] == r.mapped[j]);
    }
    assert forall|i: int| 0 <= i < s.mapped.len() implies has_image(gs, (#[trigger] s.mapped[i]).name)
        || has_image(s.done, s.mapped[i].name) by {
        let n = r.mapped[i].name;
        if has_image(fs, n) {
            let j = choose|j: int| 0 <= j < fs.len() && (#[trigger] fs[j]).name == n;
            assert(gs[j].name == n);
        }
    }
    assert(names_of(gs) =~= names_of(fs));
    assert forall|i: int, j: int| 0 <= i < j < gs.len() implies (#[trigger] gs[i]).name != (
    #[trigger] gs[j]).name by {
        assert(fs[i].name != fs[j].name);
    }
    assert forall|i: int, j: int| 0 <= i < gs.len() && 0 <= j < s.done.len() implies (
    #[trigger] gs[i]).name != (#[trigger] s.done[j]).name by {
        assert(fs[i].name != r.done[j].name);
    }
    assert forall|k: int| 0 <= k < gs.len() - 1 implies imports_from(
        (#[trigger] gs[k]).imports,
        gs[k + 1].name,
    ) by {
        assert(imports_from(fs[k].imports, fs[k + 1].name));
    }
    if w.len() > 0 {
        assert(f.deps.contains(w[0]));
    }
}

/// A library that is left out keeps a load together.
proof fn lemma_left_out(
    r: LoadRun,
    name: Seq<char>,
    dll: LoaderView,
    d0: LoaderView,
    root: Seq<char>,
    run: bool,
)
    requires
        run_ok(r, d0, root, run),
        current(r.load.asked) == Some(name),
        dll == (LoaderView { arena_next: dll.arena_next, ..r.dll }),
        all_below(r, dll.arena_next),
    ensures
        run_ok(
            (LoadRun {
                dll,
                load: goes_on(dll, r.load.frames, false, None),
                refused: r.refused.push(name),
                ..r
            }),
            d0,
            root,
            run,
        ),
{
    let fs = r.load.frames;
    let t = LoadRun { dll, refused: r.refused.push(name), ..r };
    assert(t.refused[r.refused.len() as int] == name);
    assert(t.refused.contains(name));
    assert forall|d: Seq<char>| #[trigger] r.refused.contains(d) implies t.refused.contains(d) by {
        let k = choose|k: int| 0 <= k < r.refused.len() && r.refused[k] == d;
        assert(t.refused[k] == d);
    }
    assert forall|d: Seq<char>| is_present(r.dll, d) == #[trigger] is_present(t.dll, d) by {}
    assert forall|k: int| 0 <= k < fs.len() implies accounted(t, #[trigger] fs[k], None) by {
        assert(accounted(
            r,
            fs[k],
            if k == fs.len() - 1 {
                Some(name)
            } else {
                None
            },
        ));
        assert forall|d: Seq<char>| #[trigger]
            imports_from(fs[k].imports, d) && !is_emulated(d) implies fs[k].deps.contains(d)
            || is_present(t.dll, d) || t.refused.contains(d) by {
            assert(is_present(r.dll, d) == is_present(t.dll, d));
        }
    }
    assert(stack_ok(t, fs, None, d0, root));
    if fs.len() > 0 {
        lemma_top_asks(t, fs, d0, root);
    }
}

/// An answer to the question for a file keeps a load together.
proof fn lemma_file_step(
    cfg: WinConfig,
    r: LoadRun,
    file: Option<(Seq<char>, PeView)>,
    d0: LoaderView,
    root: Seq<char>,
    run: bool,
)
    requires
        run_ok(r, d0, root, run),
        r.load.asked is Find,
    ensures
        run_ok(stepped(cfg, run, r, Answer::File(file)), d0, root, run),
{
    let name = r.load.asked->Find_name;
    let s = stepped(cfg, run, r, Answer::File(file));
    match file {
        None => {
            lemma_left_out(r, name, r.dll, d0, root, run);
        },
        Some(f) => {
            let size = f.1.size_of_image;
            let d = r.dll.placed(cfg.dll_base, cfg.dll_size, size);
            match r.dll.place(cfg.dll_base, cfg.dll_size, size) {
                None => {
                    lemma_left_out(r, name, d, d0, root, run);
                },
                Some(base) => {
                    lemma_place(r.dll, cfg.dll_base, cfg.dll_size, size);
                    let fs = r.load.frames;
                    assert forall|x: Seq<char>| is_present(r.dll, x) == #[trigger] is_present(
                        s.dll,
                        x,
                    ) by {}
                    assert forall|k: int| 0 <= k < fs.len() implies accounted(
                        s,
                        #[trigger] fs[k],
                        if k == fs.len() - 1 {
                            Some(name)
                        } else {
                            None
                        },
                    ) by {
                        assert(accounted(
                            r,
                            fs[k],
                            if k == fs.len() - 1 {
                                Some(name)
                            } else {
                                None
                            },
                        ));
                    }
                    assert(stack_ok(s, fs, Some(name), d0, root));
                },
            }
        },
    }
}

/// An image that is mapped keeps a load together.
proof fn lemma_mapped_step(
    r: LoadRun,
    mem: MemView,
    d0: LoaderView,
    root: Seq<char>,
    run: bool,
)
    requires
        run_ok(r, d0, root, run),
        r.load.asked is Relocate,
    ensures
        ({
            let d = known_with(r.dll, r.load);
            let f = mapped_frame(r.dll, r.load);
            run_ok(
                (LoadRun {
                    dll: d,
                    mem,
                    load: top_asks(d, r.load.frames.push(f), false),
                    mapped: r.mapped.push(f),
                    ..r
                }),
                d0,
                root,
                run,
            )
        }),
{
    let d = known_with(r.dll, r.load);
    let f = mapped_frame(r.dll, r.load);
    let n = f.name;
    let fs = r.load.frames;
    let gs = fs.push(f);
    let t = LoadRun { dll: d, mem, mapped: r.mapped.push(f), ..r };
    let last = fs.len() as int;
    assert(!is_present(r.dll, n));
    assert(!has_image(r.mapped, n)) by {
        if has_image(r.mapped, n) {
            assert(r.dll.by_name.contains_key(n));
        }
    }
    assert(!is_present(d0, n)) by {
        if d0.by_name.contains_key(n) {
            assert(r.dll.by_name.contains_key(n));
        }
        if d0.loading.contains(n) {
            let k = choose|k: int| 0 <= k < d0.loading.len() && d0.loading[k] == n;
            assert(r.dll.loading[k] == n);
        }
    }
    assert(gs[last] == f);
    assert(t.mapped[r.mapped.len() as int] == f);
    assert forall|i: int| 0 <= i < r.mapped.len() implies (#[trigger] r.mapped[i]).name != n by {}
    assert forall|g: FrameView| is_image(r.mapped, g) implies #[trigger] is_image(t.mapped, g) by {
        let i = choose|i: int|
            0 <= i < r.mapped.len() && (#[trigger] r.mapped[i]).name == g.name && r.mapped[i].base
                == g.base && r.mapped[i].entry_rva == g.entry_rva && r.mapped[i].imports
                == g.imports;
        assert(t.mapped[i] == r.mapped[i]);
    }
    assert(is_image(t.mapped, f));
    assert forall|g: FrameView| #[trigger] is_image(r.mapped, g) implies g.name != n by {}
    assert forall|x: Seq<char>| has_image(t.mapped, x) == (#[trigger] has_image(r.mapped, x) || x == n) by {
        if has_image(r.mapped, x) {
            let i = choose|i: int| 0 <= i < r.mapped.len() && (#[trigger] r.mapped[i]).name == x;
            assert(t.mapped[i].name == x);
        }
        if has_image(t.mapped, x) && x != n {
            let i = choose|i: int| 0 <= i < t.mapped.len() && (#[trigger] t.mapped[i]).name == x;
            assert(r.mapped[i].name == x);
        }
    }
    assert(history_ok(t, d0, run));
    assert forall|x: Seq<char>| #[trigger]
        t.dll.by_name.contains_key(x) <==> d0.by_name.contains_key(x) || has_image(t.mapped, x) by {
        assert(r.dll.by_name.contains_key(x) <==> d0.by_name.contains_key(x) || has_image(r.mapped, x));
    }
    assert forall|i: int, j: int| 0 <= i < j < gs.len() implies (#[trigger] gs[i]).name != (
    #[trigger] gs[j]).name by {
        if j == last {
            assert(is_image(r.mapped, fs[i]));
        } else {
            assert(fs[i].name != fs[j].name);
        }
    }
    assert forall|i: int| 0 <= i < gs.len() implies is_image(t.mapped, #[trigger] gs[i]) by {
        if i < last {
            assert(is_image(r.mapped, fs[i]));
        }
    }
    assert forall|i: int, j: int| 0 <= i < gs.len() && 0 <= j < t.done.len() implies (
    #[trigger] gs[i]).name != (#[trigger] t.done[j]).name by {
        if i == last {
            assert(is_image(r.mapped, r.done[j]));
        } else {
            assert(fs[i].name != r.done[j].name);
        }
    }
    assert forall|i: int| 0 <= i < t.mapped.len() implies has_image(gs, (#[trigger] t.mapped[i]).name)
        || has_image(t.done, t.mapped[i].name) by {
        let x = t.mapped[i].name;
        if i < r.mapped.len() {
            assert(t.mapped[i] == r.mapped[i]);
            if has_image(fs, x) {
                let j = choose|j: int| 0 <= j < fs.len() && (#[trigger] fs[j]).name == x;
                assert(gs[j].name == x);
            }
        } else {
            assert(gs[last].name == x);
        }
    }
    assert forall|i: int| 0 <= i < t.mapped.len() implies t.dll.by_name[(
    #[trigger] t.mapped[i]).name] == t.mapped[i].base by {
        if i < r.mapped.len() {
            assert(t.mapped[i] == r.mapped[i]);
            assert(r.mapped[i].name != n);
        }
    }
    assert(t.dll.loading =~= d0.loading + names_of(gs)) by {
        assert(r.dll.loading == d0.loading + names_of(fs));
    }
    assert forall|k: int| 0 <= k < gs.len() - 1 implies imports_from(
        (#[trigger] gs[k]).imports,
        gs[k + 1].name,
    ) by {
        if k + 1 < last {
            assert(imports_from(fs[k].imports, fs[k + 1].name));
        }
    }
    lemma_needs(d.by_name, f.imports);
    assert forall|x: Seq<char>| is_present(r.dll, x) implies #[trigger] is_present(t.dll, x) by {
        if r.dll.loading.contains(x) {
            let k = choose|k: int| 0 <= k < r.dll.loading.len() && r.dll.loading[k] == x;
            assert(t.dll.loading[k] == x);
        }
    }
    assert(is_present(t.dll, n));
    assert forall|k: int| 0 <= k < gs.len() implies listed_needs(#[trigger] gs[k]) by {
        if k < last {
            assert(listed_needs(fs[k]));
        }
    }
    assert forall|k: int| 0 <= k < gs.len() implies accounted(t, #[trigger] gs[k], None) by {
        if k < last {
            assert(accounted(
                r,
                fs[k],
                if k == fs.len() - 1 {
                    Some(n)
                } else {
                    None
                },
            ));
            assert forall|x: Seq<char>| #[trigger]
                imports_from(gs[k].imports, x) && !is_emulated(x) implies gs[k].deps.contains(x)
                || is_present(t.dll, x) || t.refused.contains(x) by {
                assert(is_present(r.dll, x) ==> is_present(t.dll, x));
            }
        }
    }
    assert(stack_ok(t, gs, None, d0, root));
    lemma_top_asks(t, gs, d0, root);
}

/// An answer to the question for relocated parts keeps a load together.
proof fn lemma_parts_step(
    cfg: WinConfig,
    r: LoadRun,
    parts: Option<Seq<ImageSectionView>>,
    d0: LoaderView,
    root: Seq<char>,
    run: bool,
)
    requires
        run_ok(r, d0, root, run),
        r.load.asked is Relocate,
    ensures
        run_ok(stepped(cfg, run, r, Answer::Parts(parts)), d0, root, run),
{
    let o = relocated_out(r.dll, r.mem, r.thunks, r.load, parts);
    match parts {
        None => {
            lemma_left_out(r, r.load.asked->Relocate_name, o.dll, d0, root, run);
        },
        Some(_) => {
            if o.r is Ok {
                lemma_mapped_step(r, o.mem, d0, root, run);
            }
        },
    }
}

/// What changes when the image on top is done: it leaves the stack for the list of those
/// that are done.
proof fn lemma_code_change(
    cfg: WinConfig,
    r: LoadRun,
    code: Seq<Option<u64>>,
    d0: LoaderView,
    root: Seq<char>,
    run: bool,
)
    requires
        run_ok(r, d0, root, run),
        r.load.asked is Resolve,
        resolved_out(cfg, r.dll, r.mem, r.thunks, r.load, code, run).r is Ok,
    ensures
        ({
            let s = stepped(cfg, run, r, Answer::Code(code));
            &&& s.mapped == r.mapped
            &&& s.refused == r.refused
            &&& s.done == r.done.push(r.load.frames.last())
            &&& s.dll == (LoaderView {
                modules: s.dll.modules,
                ldr_next: s.dll.ldr_next,
                loading: s.dll.loading,
                pending_attach: s.dll.pending_attach,
                ..r.dll
            })
            &&& s.dll.loading == d0.loading + names_of(r.load.frames.drop_last())
            &&& s.dll.pending_attach == d0.pending_attach + queue(s.done, run)
        }),
{
    let s = stepped(cfg, run, r, Answer::Code(code));
    let fs = r.load.frames;
    let f = fs.last();
    let last = fs.len() - 1;
    let gs = fs.drop_last();
    assert(fs[last] == f);
    assert(r.dll.loading.len() == d0.loading.len() + fs.len());
    assert(s.dll.loading =~= d0.loading + names_of(gs));
    assert(s.done.drop_last() =~= r.done);
    assert(s.dll.pending_attach =~= d0.pending_attach + queue(s.done, run));
}

/// What a load did holds together when the image on top is done.
proof fn lemma_code_history(
    cfg: WinConfig,
    r: LoadRun,
    code: Seq<Option<u64>>,
    d0: LoaderView,
    root: Seq<char>,
    run: bool,
)
    requires
        run_ok(r, d0, root, run),
        r.load.asked is Resolve,
        resolved_out(cfg, r.dll, r.mem, r.thunks, r.load, code, run).r is Ok,
    ensures
        history_ok(stepped(cfg, run, r, Answer::Code(code)), d0, run),
{
    let s = stepped(cfg, run, r, Answer::Code(code));
    let fs = r.load.frames;
    let f = fs.last();
    let last = fs.len() - 1;
    let gs = fs.drop_last();
    assert(fs[last] == f);
    lemma_code_change(cfg, r, code, d0, root, run);
    assert(s.done[r.done.len() as int] == f);
    assert forall|i: int, j: int| 0 <= i < j < s.done.len() implies (
    #[trigger] s.done[i]).name != (#[trigger] s.done[j]).name by {
        if j == r.done.len() {
            assert(fs[last].name != r.done[i].name);
        } else {
            assert(r.done[i].name != r.done[j].name);
        }
    }
    assert forall|j: int| 0 <= j < s.done.len() implies is_image(
        s.mapped,
        #[trigger] s.done[j],
    ) by {
        if j < r.done.len() {
            assert(is_image(r.mapped, r.done[j]));
        } else {
            assert(is_image(r.mapped, fs[last]));
        }
    }
}

/// The images that wait hold together when the image on top is done.
proof fn lemma_code_stack(
    cfg: WinConfig,
    r: LoadRun,
    code: Seq<Option<u64>>,
    d0: LoaderView,
    root: Seq<char>,
    run: bool,
)
    requires
        run_ok(r, d0, root, run),
        r.load.asked is Resolve,
        resolved_out(cfg, r.dll, r.mem, r.thunks, r.load, code, run).r is Ok,
    ensures
        stack_ok(
            LoadRun { load: r.load, ..stepped(cfg, run, r, Answer::Code(code)) },
            r.load.frames.drop_last(),
            None,
            d0,
            root,
        ),
{
    let s = stepped(cfg, run, r, Answer::Code(code));
    let fs = r.load.frames;
    let f = fs.last();
    let last = fs.len() - 1;
    let gs = fs.drop_last();
    assert(fs[last] == f);
    let t = LoadRun { load: r.load, ..s };
    lemma_code_change(cfg, r, code, d0, root, run);
    assert(s.done[r.done.len() as int] == f);
    assert forall|x: Seq<char>| has_image(r.done, x) || x == f.name implies #[trigger] has_image(
        s.done,
        x,
    ) by {
        if has_image(r.done, x) {
            let j = choose|j: int| 0 <= j < r.done.len() && (#[trigger] r.done[j]).name == x;
            assert(s.done[j].name == x);
        } else {
            assert(s.done[r.done.len() as int].name == x);
        }
    }
    assert forall|i: int| 0 <= i < s.mapped.len() implies has_image(gs, (
    #[trigger] s.mapped[i]).name) || has_image(s.done, s.mapped[i].name) by {
        let x = r.mapped[i].name;
        if has_image(fs, x) && x != f.name {
            let j = choose|j: int| 0 <= j < fs.len() && (#[trigger] fs[j]).name == x;
            assert(gs[j].name == x);
        }
    }
    assert forall|i: int, j: int| 0 <= i < gs.len() && 0 <= j < s.done.len() implies (
    #[trigger] gs[i]).name != (#[trigger] s.done[j]).name by {
        if j == r.done.len() {
            assert(fs[i].name != fs[last].name);
        } else {
            assert(fs[i].name != r.done[j].name);
        }
    }
    assert forall|i: int, j: int| 0 <= i < j < gs.len() implies (#[trigger] gs[i]).name != (
    #[trigger] gs[j]).name by {
        assert(fs[i].name != fs[j].name);
    }
    assert forall|i: int| 0 <= i < gs.len() implies is_image(s.mapped, #[trigger] gs[i]) by {
        assert(is_image(r.mapped, fs[i]));
    }
    assert forall|k: int| 0 <= k < gs.len() - 1 implies imports_from(
        (#[trigger] gs[k]).imports,
        gs[k + 1].name,
    ) by {
        assert(imports_from(fs[k].imports, fs[k + 1].name));
    }
    assert forall|x: Seq<char>| is_present(r.dll, x) implies #[trigger] is_present(
        s.dll,
        x,
    ) by {
        if r.dll.loading.contains(x) {
            let k = choose|k: int| 0 <= k < r.dll.loading.len() && r.dll.loading[k] == x;
            if k < s.dll.loading.len() {
                assert(s.dll.loading[k] == x);
            } else {
                assert(x == f.name);
                assert(is_image(r.mapped, fs[last]));
                assert(has_image(r.mapped, x));
                assert(r.dll.by_name.contains_key(x));
            }
        }
    }
    assert forall|k: int| 0 <= k < gs.len() implies listed_needs(#[trigger] gs[k]) by {
        assert(listed_needs(fs[k]));
    }
    assert forall|k: int| 0 <= k < gs.len() implies accounted(t, #[trigger] gs[k], None) by {
        assert(accounted(r, fs[k], None));
        assert forall|x: Seq<char>| #[trigger]
            imports_from(gs[k].imports, x) && !is_emulated(x) implies gs[k].deps.contains(x)
            || is_present(t.dll, x) || t.refused.contains(x) by {
            assert(imports_from(fs[k].imports, x));
            assert(is_present(r.dll, x) ==> is_present(s.dll, x));
        }
    }
    assert forall|x: Seq<char>| #[trigger]
        t.dll.by_name.contains_key(x) <==> d0.by_name.contains_key(x) || has_image(t.mapped, x) by {
        assert(r.dll.by_name.contains_key(x) <==> d0.by_name.contains_key(x) || has_image(
            r.mapped,
            x,
        ));
    }
    if gs.len() > 0 {
        assert(gs[0] == fs[0]);
    }
}

/// An answer to the question for guest code keeps a load together.
proof fn lemma_code_step(
    cfg: WinConfig,
    r: LoadRun,
    code: Seq<Option<u64>>,
    d0: LoaderView,
    root: Seq<char>,
    run: bool,
)
    requires
        run_ok(r, d0, root, run),
        r.load.asked is Resolve,
    ensures
        run_ok(stepped(cfg, run, r, Answer::Code(code)), d0, root, run),
{
    let s = stepped(cfg, run, r, Answer::Code(code));
    let o = resolved_out(cfg, r.dll, r.mem, r.thunks, r.load, code, run);
    let fs = r.load.frames;
    if o.r is Ok {
        let gs = fs.drop_last();
        let t = LoadRun { load: r.load, ..s };
        lemma_code_change(cfg, r, code, d0, root, run);
        lemma_code_history(cfg, r, code, d0, root, run);
        lemma_code_stack(cfg, r, code, d0, root, run);
        if gs.len() > 0 {
            lemma_top_asks(t, gs, d0, root);
        } else {
            assert(fs[0].name == root);
            assert forall|i: int| 0 <= i < s.mapped.len() implies has_image(s.done, (
            #[trigger] s.mapped[i]).name) by {
                assert(!has_image(gs, s.mapped[i].name));
            }
            assert forall|i: int| 0 <= i < s.mapped.len() implies s.dll.by_name.contains_key((
            #[trigger] s.mapped[i]).name) && s.dll.by_name[s.mapped[i].name]
                == s.mapped[i].base by {
                assert(has_image(r.mapped, r.mapped[i].name));
                assert(r.dll.by_name.contains_key(r.mapped[i].name));
            }
        }
    }
}

/// Any series of answers keeps a load together.
proof fn lemma_went(
    cfg: WinConfig,
    run: bool,
    r: LoadRun,
    answers: Seq<Answer>,
    d0: LoaderView,
    root: Seq<char>,
)
    requires
        run_ok(r, d0, root, run),
    ensures
        run_ok(went(cfg, run, r, answers), d0, root, run),
    decreases answers.len(),
{
    if answers.len() > 0 {
        lemma_went(cfg, run, r, answers.drop_last(), d0, root);
        let s = went(cfg, run, r, answers.drop_last());
        match (s.load.asked, answers.last()) {
            (AskedView::Find { .. }, Answer::File(file)) => {
                lemma_file_step(cfg, s, file, d0, root, run);
            },
            (AskedView::Relocate { .. }, Answer::Parts(parts)) => {
                lemma_parts_step(cfg, s, parts, d0, root, run);
            },
            (AskedView::Resolve, Answer::Code(code)) => {
                lemma_code_step(cfg, s, code, d0, root, run);
            },
            _ => {},
        }
    }
}

/// A load that begins holds together.
proof fn lemma_begun(
    dll: LoaderView,
    mem: MemView,
    thunks: ThunkView,
    path: Seq<char>,
    name: Seq<char>,
    run: bool,
)
    requires
        !is_present(dll, name),
        !is_emulated(name),
    ensures
        run_ok(begun(dll, mem, thunks, path, name), dll, name, run),
{
    let r = begun(dll, mem, thunks, path, name);
    assert(dll.pending_attach + queue(r.done, run) =~= dll.pending_attach);
    assert(dll.loading + names_of(r.load.frames) =~= dll.loading);
}

/// Queued entry points differ where the images lie apart.
proof fn lemma_queue_distinct(done: Seq<FrameView>, run: bool)
    requires
        forall|i: int, j: int|
            0 <= i < j < done.len() ==> (#[trigger] done[i]).base != (#[trigger] done[j]).base,
    ensures
        queue(done, run).no_duplicates(),
        forall|e: (u64, u64)| #[trigger]
            queue(done, run).contains(e) ==> exists|i: int|
                0 <= i < done.len() && (#[trigger] done[i]).base == e.1,
    decreases done.len(),
{
    if done.len() > 0 {
        let d = done.drop_last();
        assert forall|i: int, j: int| 0 <= i < j < d.len() implies (#[trigger] d[i]).base != (
        #[trigger] d[j]).base by {
            assert(done[i].base != done[j].base);
        }
        lemma_queue_distinct(d, run);
        let b = queue(d, run);
        let q = queue(done, run);
        let last = done.len() - 1;
        assert forall|e: (u64, u64)| #[trigger] q.contains(e) implies exists|i: int|
            0 <= i < done.len() && (#[trigger] done[i]).base == e.1 by {
            let k = choose|k: int| 0 <= k < q.len() && q[k] == e;
            if k < b.len() {
                assert(b[k] == e);
                assert(b.contains(e));
                let i = choose|i: int| 0 <= i < d.len() && (#[trigger] d[i]).base == e.1;
                assert(done[i].base == e.1);
            } else {
                assert(done[last].base == e.1);
            }
        }
        if q.len() > b.len() {
            let e = q.last();
            assert(!b.contains(e)) by {
                if b.contains(e) {
                    let i = choose|i: int| 0 <= i < d.len() && (#[trigger] d[i]).base == e.1;
                    assert(done[i].base != done[last].base);
                }
            }
            assert forall|i: int, j: int| 0 <= i < q.len() && 0 <= j < q.len() && i
                != j implies q[i] != q[j] by {
                if i < b.len() {
                    assert(b.contains(b[i]));
                }
                if j < b.len() {
                    assert(b.contains(b[j]));
                }
            }
        }
    }
}

/// Where every image has an entry point, and entry points run, each is queued.
proof fn lemma_queue_all(done: Seq<FrameView>)
    requires
        forall|j: int|
            0 <= j < done.len() ==> entry_point((#[trigger] done[j]).base, done[j].entry_rva) != 0,
    ensures
        queue(done, true) == Seq::new(
            done.len(),
            |j: int| (entry_point(done[j].base, done[j].entry_rva), done[j].base),
        ),
    decreases done.len(),
{
    let all = Seq::new(
        done.len(),
        |j: int| (entry_point(done[j].base, done[j].entry_rva), done[j].base),
    );
    if done.len() > 0 {
        let d = done.drop_last();
        assert forall|j: int| 0 <= j < d.len() implies entry_point(
            (#[trigger] d[j]).base,
            d[j].entry_rva,
        ) != 0 by {
            assert(done[j] == d[j]);
        }
        lemma_queue_all(d);
        assert(done[done.len() - 1] == done.last());
        assert(queue(done, true) =~= all);
    } else {
        assert(queue(done, true) =~= all);
    }
}

/// Images that are done lie apart.
proof fn lemma_done_apart(r: LoadRun, d0: LoaderView, run: bool)
    requires
        history_ok(r, d0, run),
    ensures
        forall|i: int, j: int|
            0 <= i < j < r.done.len() ==> (#[trigger] r.done[i]).base != (#[trigger] r.done[j]).base,
        forall|j: int| 0 <= j < r.done.len() ==> (#[trigger] r.done[j]).base % 0x1000 == 0,
{
    assert forall|i: int, j: int| 0 <= i < j < r.done.len() implies (#[trigger] r.done[i]).base != (
    #[trigger] r.done[j]).base by {
        assert(is_image(r.mapped, r.done[i]));
        assert(is_image(r.mapped, r.done[j]));
        let x = choose|x: int|
            0 <= x < r.mapped.len() && (#[trigger] r.mapped[x]).name == r.done[i].name
                && r.mapped[x].base == r.done[i].base && r.mapped[x].entry_rva
                == r.done[i].entry_rva && r.mapped[x].imports == r.done[i].imports;
        let y = choose|y: int|
            0 <= y < r.mapped.len() && (#[trigger] r.mapped[y]).name == r.done[j].name
                && r.mapped[y].base == r.done[j].base && r.mapped[y].entry_rva
                == r.done[j].entry_rva && r.mapped[y].imports == r.done[j].imports;
        assert(r.done[i].name != r.done[j].name);
        if x < y {
            assert(r.mapped[x].base < r.mapped[y].base);
        } else {
            assert(r.mapped[y].base < r.mapped[x].base);
        }
    }
    assert forall|j: int| 0 <= j < r.done.len() implies (#[trigger] r.done[j]).base % 0x1000
        == 0 by {
        assert(is_image(r.mapped, r.done[j]));
    }
}

// ---- laws -------------------------------------------------------------------

/// Whatever the host answers, no library is mapped twice in one load, nor one that was
/// there before; images lie on pages of their own, each behind the earlier ones; and
/// no entry point is queued twice.
pub proof fn lemma_loaded_once(
    cfg: WinConfig,
    run: bool,
    dll: LoaderView,
    mem: MemView,
    thunks: ThunkView,
    path: Seq<char>,
    name: Seq<char>,
    answers: Seq<Answer>,
)
    requires
        !is_present(dll, name),
        !is_emulated(name),
    ensures
        ({
            let r = went(cfg, run, begun(dll, mem, thunks, path, name), answers);
            &&& distinct(r.mapped)
            &&& forall|i: int|
                0 <= i < r.mapped.len() ==> !is_present(dll, (#[trigger] r.mapped[i]).name)
                    && r.mapped[i].base % 0x1000 == 0
            &&& forall|i: int, j: int|
                0 <= i < j < r.mapped.len() ==> (#[trigger] r.mapped[i]).base < (
                #[trigger] r.mapped[j]).base
            &&& distinct(r.done)
            &&& forall|j: int| 0 <= j < r.done.len() ==> is_image(r.mapped, #[trigger] r.done[j])
            &&& r.dll.pending_attach == dll.pending_attach + queue(r.done, run)
            &&& queue(r.done, run).no_duplicates()
        }),
{
    let b = begun(dll, mem, thunks, path, name);
    let r = went(cfg, run, b, answers);
    lemma_begun(dll, mem, thunks, path, name, run);
    lemma_went(cfg, run, b, answers, dll, name);
    lemma_done_apart(r, dll, run);
    lemma_queue_distinct(r.done, run);
}

/// The images of a load import from each other without a cycle: each has a higher rank
/// than those it imports from.
pub open spec fn no_cycle(mapped: Seq<FrameView>, rank: spec_fn(Seq<char>) -> int) -> bool {
    forall|i: int, d: Seq<char>|
        0 <= i < mapped.len() && #[trigger] imports_from((#[trigger] mapped[i]).imports, d)
            && has_image(mapped, d) ==> rank(d) < rank(mapped[i].name)
}

/// Whether an image of that name comes before place `j`.
pub open spec fn comes_before(done: Seq<FrameView>, j: int, name: Seq<char>) -> bool {
    exists|i: int| 0 <= i < j && (#[trigger] done[i]).name == name
}

/// An image that is done comes behind what it imports from, as far as that was not there
/// before, emulated or left out.
pub open spec fn order_ok(r: LoadRun, d0: LoaderView) -> bool {
    forall|j: int, d: Seq<char>|
        0 <= j < r.done.len() && #[trigger] imports_from((#[trigger] r.done[j]).imports, d)
            && !is_emulated(d) ==> comes_before(r.done, j, d) || r.refused.contains(d)
            || is_present(d0, d)
}

/// An image that waits has a rank that is no lower than that of the one on top.
proof fn lemma_rank(
    r: LoadRun,
    fs: Seq<FrameView>,
    cur: Option<Seq<char>>,
    d0: LoaderView,
    root: Seq<char>,
    rank: spec_fn(Seq<char>) -> int,
    k: int,
)
    requires
        stack_ok(r, fs, cur, d0, root),
        no_cycle(r.mapped, rank),
        0 <= k < fs.len(),
    ensures
        rank(fs[k].name) >= rank(fs.last().name),
    decreases fs.len() - k,
{
    if k < fs.len() - 1 {
        lemma_rank(r, fs, cur, d0, root, rank, k + 1);
        assert(imports_from(fs[k].imports, fs[k + 1].name));
        assert(is_image(r.mapped, fs[k]));
        assert(is_image(r.mapped, fs[k + 1]));
        let i = choose|i: int|
            0 <= i < r.mapped.len() && (#[trigger] r.mapped[i]).name == fs[k].name
                && r.mapped[i].base == fs[k].base && r.mapped[i].entry_rva == fs[k].entry_rva
                && r.mapped[i].imports == fs[k].imports;
        assert(imports_from(r.mapped[i].imports, fs[k + 1].name));
        assert(has_image(r.mapped, fs[k + 1].name));
    }
}

/// An image that gets done comes behind what it imports from.
proof fn lemma_order_step(
    cfg: WinConfig,
    run: bool,
    r: LoadRun,
    a: Answer,
    d0: LoaderView,
    root: Seq<char>,
    rank: spec_fn(Seq<char>) -> int,
)
    requires
        run_ok(r, d0, root, run),
        order_ok(r, d0),
        no_cycle(r.mapped, rank),
    ensures
        order_ok(stepped(cfg, run, r, a), d0),
{
    let s = stepped(cfg, run, r, a);
    assert forall|d: Seq<char>| #[trigger] r.refused.contains(d) implies s.refused.contains(d) by {
        let k = choose|k: int| 0 <= k < r.refused.len() && r.refused[k] == d;
        assert(s.refused[k] == d);
    }
    assert forall|j: int, d: Seq<char>|
        0 <= j < s.done.len() && #[trigger] imports_from((#[trigger] s.done[j]).imports, d)
            && !is_emulated(d) implies comes_before(s.done, j, d) || s.refused.contains(d)
        || is_present(d0, d) by {
        if j < r.done.len() {
            assert(s.done[j] == r.done[j]);
            assert(imports_from(r.done[j].imports, d));
            if comes_before(r.done, j, d) {
                let i = choose|i: int| 0 <= i < j && (#[trigger] r.done[i]).name == d;
                assert(s.done[i].name == d);
            }
        } else {
            let fs = r.load.frames;
            let last = fs.len() - 1;
            let f = fs.last();
            assert(s.done[j] == f);
            assert(fs[last] == f);
            assert(accounted(r, fs[last], None));
            assert(imports_from(f.imports, d));
            if !r.refused.contains(d) && !is_present(d0, d) {
                assert(!f.deps.contains(d));
                assert(is_present(r.dll, d));
                assert(has_image(r.mapped, d)) by {
                    if r.dll.by_name.contains_key(d) {
                    } else {
                        let k = choose|k: int| 0 <= k < r.dll.loading.len() && r.dll.loading[k] == d;
                        if k < d0.loading.len() {
                            assert(d0.loading[k] == d);
                        } else {
                            let x = k - d0.loading.len();
                            assert(fs[x].name == d);
                            assert(is_image(r.mapped, fs[x]));
                        }
                    }
                }
                let m = choose|m: int| 0 <= m < r.mapped.len() && (#[trigger] r.mapped[m]).name == d;
                if has_image(fs, d) {
                    let k = choose|k: int| 0 <= k < fs.len() && (#[trigger] fs[k]).name == d;
                    lemma_rank(r, fs, None, d0, root, rank, k);
                    assert(is_image(r.mapped, fs[last]));
                    let i = choose|i: int|
                        0 <= i < r.mapped.len() && (#[trigger] r.mapped[i]).name == f.name
                            && r.mapped[i].base == f.base && r.mapped[i].entry_rva == f.entry_rva
                            && r.mapped[i].imports == f.imports;
                    assert(imports_from(r.mapped[i].imports, d));
                    assert(false);
                }
                assert(has_image(r.done, r.mapped[m].name));
                let i = choose|i: int| 0 <= i < r.done.len() && (#[trigger] r.done[i]).name == d;
                assert(s.done[i].name == d);
            }
        }
    }
}

/// Whatever the host answers, images get done behind what they import from.
proof fn lemma_order(
    cfg: WinConfig,
    run: bool,
    r: LoadRun,
    answers: Seq<Answer>,
    d0: LoaderView,
    root: Seq<char>,
    rank: spec_fn(Seq<char>) -> int,
)
    requires
        run_ok(r, d0, root, run),
        order_ok(r, d0),
        no_cycle(went(cfg, run, r, answers).mapped, rank),
    ensures
        order_ok(went(cfg, run, r, answers), d0),
    decreases answers.len(),
{
    if answers.len() > 0 {
        let p = answers.drop_last();
        let s = went(cfg, run, r, p);
        let t = went(cfg, run, r, answers);
        assert forall|i: int, d: Seq<char>|
            0 <= i < s.mapped.len() && #[trigger] imports_from((#[trigger] s.mapped[i]).imports, d)
                && has_image(s.mapped, d) implies rank(d) < rank(s.mapped[i].name) by {
            assert(t.mapped[i] == s.mapped[i]);
            let k = choose|k: int| 0 <= k < s.mapped.len() && (#[trigger] s.mapped[k]).name == d;
            assert(t.mapped[k].name == d);
            assert(imports_from(t.mapped[i].imports, d));
        }
        lemma_order(cfg, run, r, p, d0, root, rank);
        lemma_went(cfg, run, r, p, d0, root);
        lemma_order_step(cfg, run, s, answers.last(), d0, root, rank);
    }
}

/// A library that was left out once in a load is not mapped in it later.
pub open spec fn left_out_for_good(r: LoadRun) -> bool {
    forall|d: Seq<char>| #[trigger] r.refused.contains(d) ==> !has_image(r.mapped, d)
}

/// A load that succeeds queues the entry points of all images that it mapped, each
/// once, each behind those of the images it imports from, and that of the library it
/// is for last. The images import from each other without a cycle, as `rank` shows, and
/// what the host has no image for, it has none for each time.
pub proof fn lemma_leaves_first(
    cfg: WinConfig,
    run: bool,
    dll: LoaderView,
    mem: MemView,
    thunks: ThunkView,
    path: Seq<char>,
    name: Seq<char>,
    answers: Seq<Answer>,
    base: u64,
    rank: spec_fn(Seq<char>) -> int,
)
    requires
        !is_present(dll, name),
        !is_emulated(name),
        ({
            let r = went(cfg, run, begun(dll, mem, thunks, path, name), answers);
            &&& r.load.asked == AskedView::Finished(Some(base))
            &&& no_cycle(r.mapped, rank)
            &&& left_out_for_good(r)
        }),
    ensures
        ({
            let r = went(cfg, run, begun(dll, mem, thunks, path, name), answers);
            &&& base % 0x1000 == 0
            &&& r.dll.by_name.contains_key(name) && r.dll.by_name[name] == base
            &&& r.done.len() == r.mapped.len()
            &&& distinct(r.done)
            &&& forall|i: int|
                0 <= i < r.mapped.len() ==> has_image(r.done, (#[trigger] r.mapped[i]).name)
            &&& r.done.last().name == name && r.done.last().base == base
            &&& forall|j: int, d: Seq<char>|
                0 <= j < r.done.len() && #[trigger] imports_from((#[trigger] r.done[j]).imports, d)
                    && has_image(r.mapped, d) ==> comes_before(r.done, j, d)
            &&& r.dll.pending_attach == dll.pending_attach + queue(r.done, run)
            &&& queue(r.done, run).no_duplicates()
            &&& run && (forall|j: int|
                0 <= j < r.done.len() ==> entry_point(
                    (#[trigger] r.done[j]).base,
                    r.done[j].entry_rva,
                ) != 0) ==> queue(r.done, run) == Seq::new(
                r.done.len(),
                |j: int| (entry_point(r.done[j].base, r.done[j].entry_rva), r.done[j].base),
            )
        }),
{
    let b = begun(dll, mem, thunks, path, name);
    let r = went(cfg, run, b, answers);
    lemma_loaded_once(cfg, run, dll, mem, thunks, path, name, answers);
    lemma_begun(dll, mem, thunks, path, name, run);
    lemma_went(cfg, run, b, answers, dll, name);
    lemma_order(cfg, run, b, answers, dll, name, rank);
    lemma_done_apart(r, dll, run);
    let last = r.done.len() - 1;
    assert(r.done[last].base == base);
    assert(is_image(r.mapped, r.done[last]));
    assert forall|j: int, d: Seq<char>|
        0 <= j < r.done.len() && #[trigger] imports_from((#[trigger] r.done[j]).imports, d)
            && has_image(r.mapped, d) implies comes_before(r.done, j, d) by {
        let m = choose|m: int| 0 <= m < r.mapped.len() && (#[trigger] r.mapped[m]).name == d;
        assert(!is_present(dll, r.mapped[m].name));
    }
    if run && (forall|j: int|
        0 <= j < r.done.len() ==> entry_point((#[trigger] r.done[j]).base, r.done[j].entry_rva)
            != 0) {
        lemma_queue_all(r.done);
    }
}

} // verus!
