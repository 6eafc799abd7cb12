//! The core set of libraries: four images that are mapped as guest code, each before
//! the ones that need it.

use vstd::prelude::*;

use crate::api::Api;
use crate::ldr::{api_set_out, is_contract_map, LdrOut};
use crate::loader::LoaderView;
use crate::mem::{at, ga, sptr, store_ptr, Fault, MemView, VirtualMemory};
use crate::os::{OsReply, OsView, WinOs};
use crate::plugin::{started, Asked, LoadView, PluginLoad};
use crate::unix::ntdll_table;

verus! {

/// How many libraries the core set has.
pub const CORE_COUNT: usize = 4;

/// The libraries of the core set, each behind those that it needs.
pub open spec fn core_name(k: int) -> Seq<char> {
    if k == 0 {
        "ntdll.dll"@
    } else if k == 1 {
        "kernelbase.dll"@
    } else if k == 2 {
        "kernel32.dll"@
    } else {
        "ucrtbase.dll"@
    }
}

/// The libraries of the core set.
pub fn core_library(k: usize) -> (r: &'static str)
    ensures
        r@ == core_name(k as int),
{
    if k == 0 {
        "ntdll.dll"
    } else if k == 1 {
        "kernelbase.dll"
    } else if k == 2 {
        "kernel32.dll"
    } else {
        "ucrtbase.dll"
    }
}

/// How far loading the core set has come.
pub enum CoreLoad {
    /// Library `k` is being loaded; `ntdll` is where the first one is.
    Loading { k: usize, ntdll: Option<u64>, load: PluginLoad },
    /// It is over; where `ntdll` is, if the set was loaded.
    Finished(Option<u64>),
}

/// How far loading the core set has come, as mathematics.
pub enum CoreView {
    Loading { k: int, ntdll: Option<u64>, load: LoadView },
    /// All libraries are there; the map of contracts has still to be published.
    Mapped(Option<u64>),
    Finished(Option<u64>),
}

impl View for CoreLoad {
    type V = CoreView;

    open spec fn view(&self) -> CoreView {
        match *self {
            CoreLoad::Loading { k, ntdll, load } => CoreView::Loading {
                k: k as int,
                ntdll,
                load: load@,
            },
            CoreLoad::Finished(r) => CoreView::Finished(r),
        }
    }
}

/// What a step of loading the core set leads to.
pub struct CoreOut {
    pub os: OsView,
    pub mem: MemView,
    pub r: Result<CoreView, Fault>,
}

/// What follows once library `k` is at `base`: `ntdll` gets its host half, and a
/// thunk to call it through at the address that its code reads.
pub open spec fn core_bound(v: OsView, m: MemView, k: int, base: u64, rva: u64) -> OsReply {
    if k == 0 {
        let w = v.with_unixlib(base, ntdll_table());
        let thunk = v.thunks.next() as u64;
        let s = m.store(sptr(v.wide(), ga(base, rva as int), thunk));
        OsReply {
            os: OsView { thunks: v.thunks.grown(), ..w },
            mem: s.mem,
            r: match s.fault {
                None => Ok(thunk),
                Some(f) => Err(f),
            },
        }
    } else {
        OsReply { os: v, mem: m, r: Ok(0) }
    }
}

/// Loading the core set from library `k` on: known libraries are taken as they are,
/// and the first unknown one has to be loaded.
pub open spec fn core_from(v: OsView, m: MemView, k: int, ntdll: Option<u64>, rva: u64) -> CoreOut
    decreases 4 - k,
{
    if k >= 4 {
        CoreOut { os: v, mem: m, r: Ok(CoreView::Mapped(ntdll)) }
    } else if v.dll.by_name.contains_key(core_name(k)) {
        core_after(v, m, k, v.dll.by_name[core_name(k)], ntdll, rva)
    } else {
        CoreOut {
            os: v,
            mem: m,
            r: Ok(
                CoreView::Loading {
                    k,
                    ntdll,
                    load: started(v.dll, core_name(k), core_name(k), true),
                },
            ),
        }
    }
}

/// Loading the core set once library `k` is at `base`.
pub open spec fn core_after(v: OsView, m: MemView, k: int, base: u64, ntdll: Option<u64>, rva: u64) -> CoreOut
    decreases 4 - k, 1int,
    when k < 4
{
    let b = core_bound(v, m, k, base, rva);
    match b.r {
        Err(f) => CoreOut { os: b.os, mem: b.mem, r: Err(f) },
        Ok(_) => core_from(
            b.os,
            b.mem,
            k + 1,
            if k == 0 {
                Some(base)
            } else {
                ntdll
            },
            rva,
        ),
    }
}

/// Whether a step of loading the core set ended as it should: once every library is
/// there, the map of contracts is published.
pub open spec fn core_step(o: CoreOut, v: OsView, m: MemView, r: Result<CoreView, Fault>) -> bool {
    match o.r {
        Ok(CoreView::Mapped(ntdll)) => exists|b: Seq<u8>| #[trigger]
            is_contract_map(b) && core_published(o, b, ntdll, v, m, r),
        _ => v == o.os && m == o.mem && r == o.r,
    }
}

/// Whether the map of contracts was published, as which bytes.
pub open spec fn core_published(
    o: CoreOut,
    b: Seq<u8>,
    ntdll: Option<u64>,
    v: OsView,
    m: MemView,
    r: Result<CoreView, Fault>,
) -> bool {
    let s = api_set_out(o.os.cfg, o.os.dll, o.mem, b);
    &&& v == (OsView { dll: s.dll, ..o.os })
    &&& m == s.mem
    &&& r == (match s.r {
        Ok(_) => Ok(CoreView::Finished(ntdll)),
        Err(f) => Err(f),
    })
}

/// The view of a step of loading the core set.
pub open spec fn core_result(r: Result<CoreLoad, Fault>) -> Result<CoreView, Fault> {
    match r {
        Ok(c) => Ok(c@),
        Err(f) => Err(f),
    }
}

impl WinOs {
    /// A thunk for a library to call its host half through.
    pub fn wine_unix_call_thunk(&mut self) -> (a: u64)
        requires
            old(self).wf(),
            old(self).thunks@.has_room(1),
        ensures
            final(self).wf(),
            a == old(self)@.thunks.next(),
            final(self)@ == (OsView { thunks: old(self)@.thunks.grown(), ..old(self)@ }),
            final(self).thunks.extends(old(self).thunks),
            final(self).thunks.apis@ == old(self).thunks.apis@.push(Api::WineUnixCall),
    {
        self.thunks.alloc_thunk(Api::WineUnixCall)
    }

    /// Take library `k` of the core set into use.
    fn core_bind(&mut self, mem: &mut VirtualMemory, k: usize, base: u64, rva: u64) -> (r: Result<
        u64,
        Fault,
    >)
        requires
            old(self).wf(),
            k == 0 ==> old(self).thunks@.has_room(1),
        ensures
            final(self).wf(),
            final(self).thunks.extends(old(self).thunks),
            (OsReply { os: final(self)@, mem: final(mem)@, r }) == core_bound(
                old(self)@,
                old(mem)@,
                k as int,
                base,
                rva,
            ),
    {
        if k != 0 {
            return Ok(0);
        }
        let _handle = self.register_ntdll_unixlib(base);
        let thunk: u64 = self.wine_unix_call_thunk();
        match mem.store(store_ptr(self.cfg.is_64bit, at(base, rva), thunk)) {
            Ok(_) => Ok(thunk),
            Err(f) => Err(f),
        }
    }

    /// Publish the map of contracts once every library of the core set is there.
    fn core_publish(&mut self, mem: &mut VirtualMemory, ntdll: Option<u64>) -> (r: Result<
        CoreLoad,
        Fault,
    >)
        requires
            old(self).wf(),
        ensures
            final(self).wf(),
            final(self).thunks == old(self).thunks,
            core_step(
                CoreOut {
                    os: old(self)@,
                    mem: old(mem)@,
                    r: Ok(CoreView::Mapped(ntdll)),
                },
                final(self)@,
                final(mem)@,
                core_result(r),
            ),
    {
        let ghost v = self@;
        let ghost m = mem@;
        let r = self.dll.seed_api_set_map(&self.cfg, mem);
        proof {
            let o = CoreOut { os: v, mem: m, r: Ok(CoreView::Mapped(ntdll)) };
            let b = choose|b: Seq<u8>| #[trigger]
                is_contract_map(b) && (LdrOut { dll: self.dll@, mem: mem@, r }) == api_set_out(
                    v.cfg,
                    v.dll,
                    m,
                    b,
                );
            assert(is_contract_map(b));
            let done = match r {
                Ok(_) => Ok(CoreView::Finished(ntdll)),
                Err(f) => Err(f),
            };
            assert(core_published(o, b, ntdll, self@, mem@, done));
        }
        match r {
            Ok(_) => Ok(CoreLoad::Finished(ntdll)),
            Err(f) => Err(f),
        }
    }

    /// Load the core set from library `k` on.
    fn core_advance(&mut self, mem: &mut VirtualMemory, k: usize, ntdll: Option<u64>, rva: u64) -> (r:
        Result<CoreLoad, Fault>)
        requires
            old(self).wf(),
            k <= 4,
            k == 0 ==> old(self).thunks@.has_room(1),
        ensures
            final(self).wf(),
            final(self).thunks.extends(old(self).thunks),
            core_step(
                core_from(old(self)@, old(mem)@, k as int, ntdll, rva),
                final(self)@,
                final(mem)@,
                core_result(r),
            ),
        decreases 4 - k,
    {
        if k >= CORE_COUNT {
            return self.core_publish(mem, ntdll);
        }
        let name = core_library(k);
        let known: Option<u64> = match self.dll.by_name.get(name) {
            Some(h) => Some(*h),
            None => None,
        };
        match known {
            Some(base) => {
                match self.core_bind(mem, k, base, rva) {
                    Ok(_) => {},
                    Err(f) => {
                        return Err(f);
                    },
                }
                self.core_advance(
                    mem,
                    k + 1,
                    if k == 0 {
                        Some(base)
                    } else {
                        ntdll
                    },
                    rva,
                )
            },
            None => {
                let load = PluginLoad::load_plugin(&self.dll, name, name, true);
                Ok(CoreLoad::Loading { k, ntdll, load })
            },
        }
    }

    /// Start loading the core set. It is loaded only where all its files are
    /// `present`, so that no part of it ever stands alone. `rva` is where `ntdll`
    /// keeps the address that it calls its host half through.
    pub fn load_wine_core(&mut self, mem: &mut VirtualMemory, present: bool, rva: u64) -> (r: Result<
        CoreLoad,
        Fault,
    >)
        requires
            old(self).wf(),
            old(self).thunks@.has_room(1),
        ensures
            final(self).wf(),
            final(self).thunks.extends(old(self).thunks),
            if present {
                core_step(
                    core_from(
                        OsView {
                            dll: LoaderView { pending_attach: Seq::empty(), ..old(self)@.dll },
                            ..old(self)@
                        },
                        old(mem)@,
                        0,
                        None,
                        rva,
                    ),
                    final(self)@,
                    final(mem)@,
                    core_result(r),
                )
            } else {
                &&& final(self)@ == old(self)@
                &&& final(mem)@ == old(mem)@
                &&& core_result(r) == Ok::<CoreView, Fault>(CoreView::Finished(None))
            },
    {
        if !present {
            return Ok(CoreLoad::Finished(None));
        }
        self.dll.pending_attach.clear();
        assert(self.dll.pending_attach@ =~= Seq::empty());
        self.core_advance(mem, 0, None, rva)
    }

    /// Go on once the load of library `k` is over. A library that cannot be loaded
    /// ends the whole set.
    pub fn core_loaded(
        &mut self,
        mem: &mut VirtualMemory,
        k: usize,
        ntdll: Option<u64>,
        load: &PluginLoad,
        rva: u64,
    ) -> (r: Result<CoreLoad, Fault>)
        requires
            old(self).wf(),
            old(self).thunks@.has_room(1),
            k < 4,
            load@.asked is Finished,
        ensures
            final(self).wf(),
            final(self).thunks.extends(old(self).thunks),
            match load@.asked->Finished_0 {
                Some(base) => core_step(
                    core_after(old(self)@, old(mem)@, k as int, base, ntdll, rva),
                    final(self)@,
                    final(mem)@,
                    core_result(r),
                ),
                None => {
                    &&& final(self)@ == old(self)@
                    &&& final(mem)@ == old(mem)@
                    &&& core_result(r) == Ok::<CoreView, Fault>(CoreView::Finished(None))
                },
            },
    {
        let base: u64 = match &load.asked {
            Asked::Finished(Some(base)) => *base,
            _ => {
                return Ok(CoreLoad::Finished(None));
            },
        };
        match self.core_bind(mem, k, base, rva) {
            Ok(_) => {},
            Err(f) => {
                return Err(f);
            },
        }
        self.core_advance(
            mem,
            k + 1,
            if k == 0 {
                Some(base)
            } else {
                ntdll
            },
            rva,
        )
    }
}

/// Where the whole set is known, `ntdll` has its host half from then on.
pub proof fn lemma_core_known(v: OsView, m: MemView, rva: u64)
    requires
        forall|k: int| 0 <= k < 4 ==> v.dll.by_name.contains_key(#[trigger] core_name(k)),
        core_bound(v, m, 0, v.dll.by_name[core_name(0)], rva).r is Ok,
    ensures
        ({
            let base = v.dll.by_name[core_name(0)];
            let o = core_from(v, m, 0, None, rva);
            &&& o.r == Ok::<CoreView, Fault>(CoreView::Mapped(Some(base)))
            &&& o.os.unixlib_of.contains_key(base)
        }),
{
    assert(v.dll.by_name.contains_key(core_name(0)));
    assert(v.dll.by_name.contains_key(core_name(1)));
    assert(v.dll.by_name.contains_key(core_name(2)));
    assert(v.dll.by_name.contains_key(core_name(3)));
    let base = v.dll.by_name[core_name(0)];
    let b = core_bound(v, m, 0, base, rva);
    let w = b.os;
    let n = b.mem;
    let r = Some(base);
    assert(w.dll == v.dll);
    assert(core_from(w, n, 4, r, rva) == (CoreOut {
        os: w,
        mem: n,
        r: Ok(CoreView::Mapped(r)),
    }));
    assert(core_after(w, n, 3, v.dll.by_name[core_name(3)], r, rva) == core_from(w, n, 4, r, rva));
    assert(core_from(w, n, 3, r, rva) == core_from(w, n, 4, r, rva));
    assert(core_after(w, n, 2, v.dll.by_name[core_name(2)], r, rva) == core_from(w, n, 3, r, rva));
    assert(core_from(w, n, 2, r, rva) == core_from(w, n, 3, r, rva));
    assert(core_after(w, n, 1, v.dll.by_name[core_name(1)], r, rva) == core_from(w, n, 2, r, rva));
    assert(core_from(w, n, 1, r, rva) == core_from(w, n, 2, r, rva));
    assert(core_after(v, m, 0, base, None, rva) == core_from(w, n, 1, r, rva));
}

} // verus!
