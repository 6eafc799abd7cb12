//! The locale database and the language sections that start-up code maps.

use vstd::prelude::*;

use crate::call::{answer, answer_stores, faulted, sysarg, sysarg_at, Reply};
use crate::cpu::{CpuState, CpuView, Reg};
use crate::fs::{zero_bytes, zeros};
use crate::mem::{
    lemma_le_bytes_len, lemma_le_round_trip, lemma_pow256, le_value, opt, overlay, pow256, push_opt,
    s16, s32, s64, store16, store32, store64, Fault, MemView, Perm, Store, VirtualMemory,
};
use crate::ntreg::{finish, STATUS_SUCCESS};
use crate::ntvm::STATUS_NO_MEMORY;
use crate::util::{first_index, lemma_first_index_is, lemma_first_index_none, round_up};
use crate::vm::{any_map, VmState, VmView};

verus! {

/// The locale of the system: US English.
pub const SYSTEM_LCID: u32 = 0x0000_0409;

/// The code page that every section names: UTF-8.
pub const CP_UTF8: u16 = 0xFDE9;

/// Where the directory keeps the offset of the locale table.
pub const HDR_LOCALE_TABLE_OFF: usize = 0x10;

/// Where the locale table keeps the number of its locales.
pub const LT_NB_LCIDS: usize = 0x1e;

/// Where the locale table keeps the size of a record.
pub const LT_STRIDE: usize = 0x22;

/// Where the locale table keeps the offset of its records.
pub const LT_LOCALES_OFF: usize = 0x24;

/// Where the locale table keeps the offset of its index.
pub const LT_LCIDS_OFF: usize = 0x2c;

/// Where the locale table keeps the offset of its strings.
pub const LT_STRINGS_OFF: usize = 0x40;

/// Bytes of an index entry.
pub const LCID_ENTRY_LEN: usize = 8;

/// Bytes of a locale record.
pub const REC_LEN: usize = 0x130;

/// Where a record says that it is valid.
pub const REC_FLAG_18: usize = 0x18;

/// Where a record names its ANSI code page.
pub const REC_ACP: usize = 0x6e;

/// Where a record names its OEM code page.
pub const REC_OEMCP: usize = 0x70;

// ---- images -----------------------------------------------------------------

/// `n` zero bytes with the fields of a table laid over them, in order.
pub open spec fn image(n: nat, t: Seq<Store>) -> Seq<u8>
    decreases t.len(),
{
    if t.len() == 0 {
        zeros(n)
    } else {
        overlay(image(n, t.drop_last()), t.last().addr as int, t.last().bytes())
    }
}

/// Whether every field of a table lies within `n` bytes.
pub open spec fn inside(t: Seq<Store>, n: int) -> bool {
    forall|i: int| 0 <= i < t.len() ==> (#[trigger] t[i]).addr + t[i].size <= n && t[i].size <= 8
}

/// Build an image.
pub fn build_image(n: usize, t: &Vec<Store>) -> (r: Vec<u8>)
    requires
        inside(t@, n as int),
    ensures
        r@ == image(n as nat, t@),
        r.len() == n,
{
    let mut b = zero_bytes(n);
    let mut i: usize = 0;
    assert(t@.take(0) =~= Seq::empty());
    while i < t.len()
        invariant
            i <= t.len(),
            inside(t@, n as int),
            b.len() == n,
            b@ == image(n as nat, t@.take(i as int)),
        decreases t.len() - i,
    {
        let f: Store = t[i];
        let d = crate::mem::bytes_of(f.value, f.size);
        proof {
            lemma_le_bytes_len(f.value as nat, f.size as nat);
            assert(t@.take(i + 1).drop_last() =~= t@.take(i as int));
        }
        let ghost before = b@;
        let mut j: usize = 0;
        while j < d.len()
            invariant
                j <= d.len(),
                d.len() == f.size,
                f.addr + f.size <= n,
                b.len() == n,
                before.len() == n,
                b@ == overlay(before, f.addr as int, d@.take(j as int)),
            decreases d.len() - j,
        {
            b.set(f.addr as usize + j, d[j]);
            j = j + 1;
            assert(b@ =~= overlay(before, f.addr as int, d@.take(j as int)));
        }
        assert(d@.take(j as int) =~= d@);
        assert(overlay(before, f.addr as int, d@.take(0)) =~= before);
        i = i + 1;
    }
    assert(t@.take(i as int) =~= t@);
    b
}

/// An image has its size.
proof fn lemma_image_len(n: nat, t: Seq<Store>)
    ensures
        image(n, t).len() == n,
    decreases t.len(),
{
    if t.len() > 0 {
        lemma_image_len(n, t.drop_last());
    }
}

/// The number in a field of an image.
pub open spec fn field(b: Seq<u8>, off: int, size: int) -> nat {
    le_value(b.subrange(off, off + size))
}

/// A field that no later one touches holds its value.
pub proof fn lemma_image_field(n: nat, t: Seq<Store>, i: int)
    requires
        0 <= i < t.len(),
        inside(t, n as int),
        forall|j: int| i < j < t.len() ==> crate::mem::apart(t[i], #[trigger] t[j]),
        t[i].value < pow256(t[i].size as nat),
    ensures
        field(image(n, t), t[i].addr as int, t[i].size as int) == t[i].value,
    decreases t.len(),
{
    let d = t.drop_last();
    let f = t.last();
    lemma_image_len(n, d);
    lemma_le_bytes_len(f.value as nat, f.size as nat);
    let b = image(n, t);
    if i == t.len() - 1 {
        lemma_le_round_trip(f.value as nat, f.size as nat);
        assert(b.subrange(f.addr as int, f.addr + f.size) =~= f.bytes());
    } else {
        assert forall|j: int| i < j < d.len() implies crate::mem::apart(d[i], #[trigger] d[j]) by {
            assert(crate::mem::apart(t[i], t[j]));
        }
        assert(inside(d, n as int)) by {
            assert forall|k: int| 0 <= k < d.len() implies (#[trigger] d[k]).addr + d[k].size <= n
                && d[k].size <= 8 by {
                assert(t[k].addr + t[k].size <= n);
            }
        }
        lemma_image_field(n, d, i);
        assert(crate::mem::apart(t[i], t[t.len() - 1]));
        assert(t[i].addr + t[i].size <= n);
        assert(b.subrange(t[i].addr as int, t[i].addr + t[i].size) =~= image(n, d).subrange(
            d[i].addr as int,
            d[i].addr + d[i].size,
        ));
    }
}

/// The fields of the locale database: the directory, the locale table at 0x80,
/// the index at 0x200, and one record at 0x300 for the locale of the system.
pub open spec fn locale_fields() -> Seq<Store> {
    seq![
        s32(0x10, 0x80),
        s32(0x14, 0x430),
        s32(0x18, 0x470),
        s16(0x9e, 1),
        s16(0xa2, 0x130),
        s32(0xa4, 0x280),
        s16(0xa8, 1),
        s32(0xac, 0x180),
        s32(0xb0, 0x1c0),
        s32(0xc0, 0x200),
        s32(0x200, SYSTEM_LCID),
        s16(0x204, 0),
        s16(0x206, 0),
        s16(0x308, 0x409),
        s16(0x318, 1),
        s16(0x36e, CP_UTF8),
        s16(0x370, CP_UTF8),
        s32(0x424, 0),
    ]
}

/// Bytes of the locale database.
pub const LOCALE_SIZE: usize = 0x4f0;

/// The locale database.
pub open spec fn locale_image() -> Seq<u8> {
    image(LOCALE_SIZE as nat, locale_fields())
}

/// Build the locale database.
pub fn build_locale_nls() -> (b: Vec<u8>)
    ensures
        b@ == locale_image(),
        b.len() == LOCALE_SIZE,
{
    let t: Vec<Store> = vec![
        store32(0x10, 0x80),
        store32(0x14, 0x430),
        store32(0x18, 0x470),
        store16(0x9e, 1),
        store16(0xa2, 0x130),
        store32(0xa4, 0x280),
        store16(0xa8, 1),
        store32(0xac, 0x180),
        store32(0xb0, 0x1c0),
        store32(0xc0, 0x200),
        store32(0x200, SYSTEM_LCID),
        store16(0x204, 0),
        store16(0x206, 0),
        store16(0x308, 0x409),
        store16(0x318, 1),
        store16(0x36e, CP_UTF8),
        store16(0x370, CP_UTF8),
        store32(0x424, 0),
    ];
    assert(t@ =~= locale_fields());
    build_image(LOCALE_SIZE, &t)
}

/// The fields of the sort section: a directory that leads to one empty block.
pub open spec fn sort_fields() -> Seq<Store> {
    seq![s32(0, 0x80), s32(4, 0x80), s32(8, 0x80), s32(12, 0x80)]
}

/// Build the sort section.
pub fn build_sort_nls() -> (b: Vec<u8>)
    ensures
        b@ == image(0x280, sort_fields()),
        b.len() == 0x280,
{
    let t: Vec<Store> = vec![
        store32(0, 0x80),
        store32(4, 0x80),
        store32(8, 0x80),
        store32(12, 0x80),
    ];
    assert(t@ =~= sort_fields());
    build_image(0x280, &t)
}

/// The fields of a code page section: the size of its header and its code page.
pub open spec fn codepage_fields() -> Seq<Store> {
    seq![s16(0, 0x000D), s16(2, CP_UTF8)]
}

/// Build a code page section.
pub fn build_codepage_nls() -> (b: Vec<u8>)
    ensures
        b@ == image(0x100, codepage_fields()),
        b.len() == 0x100,
{
    let t: Vec<Store> = vec![store16(0, 0x000D), store16(2, CP_UTF8)];
    assert(t@ =~= codepage_fields());
    build_image(0x100, &t)
}

/// The locale database can be walked: the directory leads to the locale table,
/// its index holds the one locale of the system, and that leads to a valid
/// record with UTF-8 code pages; all of it lies inside.
pub proof fn lemma_locale_walk()
    ensures
        ({
            let b = locale_image();
            let lt = field(b, 0x10, 4) as int;
            let lcids = lt + field(b, lt + 0x2c, 4);
            let strings = lt + field(b, lt + 0x40, 4);
            let rec = lt + field(b, lt + 0x24, 4) + field(b, lcids + 4, 2) * field(
                b,
                lt + 0x22,
                2,
            );
            &&& lt + 0x44 <= b.len()
            &&& field(b, lt + 0x1e, 2) == 1
            &&& field(b, lt + 0x22, 2) == REC_LEN
            &&& lcids + LCID_ENTRY_LEN <= b.len()
            &&& strings < b.len()
            &&& field(b, lcids, 4) == SYSTEM_LCID
            &&& rec + REC_LEN <= b.len()
            &&& field(b, rec + 0x6e, 2) == CP_UTF8
            &&& field(b, rec + 0x70, 2) == CP_UTF8
            &&& field(b, rec + 0x18, 2) != 0
            &&& field(b, 0x14, 4) + 0x40 <= b.len()
            &&& field(b, 0x18, 4) + 0x80 <= b.len()
        }),
{
    let t = locale_fields();
    let n = LOCALE_SIZE as nat;
    lemma_image_len(n, t);
    lemma_pow256();
    lemma_image_field(n, t, 0);
    lemma_image_field(n, t, 1);
    lemma_image_field(n, t, 2);
    lemma_image_field(n, t, 3);
    lemma_image_field(n, t, 4);
    lemma_image_field(n, t, 5);
    lemma_image_field(n, t, 7);
    lemma_image_field(n, t, 9);
    lemma_image_field(n, t, 10);
    lemma_image_field(n, t, 11);
    lemma_image_field(n, t, 14);
    lemma_image_field(n, t, 15);
    lemma_image_field(n, t, 16);
}

/// A code page section names UTF-8.
pub proof fn lemma_codepage_is_utf8()
    ensures
        field(image(0x100, codepage_fields()), 2, 2) == CP_UTF8,
{
    lemma_pow256();
    lemma_image_field(0x100, codepage_fields(), 1);
}

// ---- mapping ----------------------------------------------------------------

/// A mapped language section.
#[derive(Clone, Copy, Debug, PartialEq, Eq, Structural)]
pub struct Section {
    pub ty: u32,
    pub base: u64,
    pub size: u64,
}

/// The condition of being the section of a type.
pub open spec fn of_type(ty: u32) -> spec_fn(Section) -> bool {
    |s: Section| s.ty == ty
}

/// What was mapped so far.
pub struct NlsState {
    pub locale: Option<(u64, u64)>,
    pub sections: Vec<Section>,
}

/// What was mapped so far, as mathematics.
#[verifier::ext_equal]
pub struct NlsView {
    pub locale: Option<(u64, u64)>,
    pub sections: Seq<Section>,
}

impl View for NlsState {
    type V = NlsView;

    open spec fn view(&self) -> NlsView {
        NlsView { locale: self.locale, sections: self.sections@ }
    }
}

/// Whole pages for `n` bytes.
pub open spec fn page_size(n: nat) -> u64 {
    round_up(n as int, 0x1000) as u64
}

/// What mapping an image leads to: where it lies, and the memory and the search
/// hint after it.
pub struct Placed {
    pub base: Option<u64>,
    pub next: u64,
    pub mem: MemView,
}

/// An image in a fresh region.
pub open spec fn placed(next: u64, m: MemView, blob: Seq<u8>) -> Placed {
    let a = any_map(next, m, page_size(blob.len()), Perm::spec_rw());
    match a.base {
        None => Placed { base: None, next: a.next, mem: a.mem },
        Some(b) => {
            let s = a.mem.write(b, blob);
            Placed {
                base: if s.fault is None && b != 0 {
                    Some(b)
                } else {
                    None
                },
                next: a.next,
                mem: s.mem,
            }
        },
    }
}

/// Map an image into a fresh region.
fn map_nls_blob(vm: &mut VmState, mem: &mut VirtualMemory, blob: &Vec<u8>) -> (r: Option<u64>)
    requires
        0 < blob.len() <= 0x10000,
    ensures
        ({
            let p = placed(old(vm).next, old(mem)@, blob@);
            &&& r == p.base
            &&& final(mem)@ == p.mem
            &&& final(vm)@ == (VmView { next: p.next, ..old(vm)@ })
        }),
        r is Some ==> r->0 != 0,
{
    proof {
        crate::util::lemma_round_up(blob.len() as int, 0x1000);
    }
    let size: u64 = ((blob.len() as u64 + 0xfff) / 0x1000) * 0x1000;
    match vm.map_anywhere(mem, size, Perm::rw()) {
        Some(b) => match mem.write(b, blob) {
            Ok(_) => if b != 0 {
                Some(b)
            } else {
                None
            },
            Err(_) => None,
        },
        None => None,
    }
}

/// What a language call leads to.
pub struct NlsOut {
    pub nls: NlsView,
    pub vm: VmView,
    pub reply: Reply,
}

/// The stores of the locale call: base, locale and size, each where asked for.
pub open spec fn locale_stores(base_out: u64, lcid_out: u64, size_out: u64, p: (u64, u64)) -> Seq<
    Store,
> {
    opt(s64(base_out, p.0)) + opt(s32(lcid_out, SYSTEM_LCID)) + opt(s64(size_out, p.1))
}

/// `NtInitializeNlsFiles`: the locale database, mapped once.
pub open spec fn nls_files_out(s: NlsView, v: VmView, c: CpuView, m: MemView) -> NlsOut {
    let base_out = c.reg(Reg::R10);
    let lcid_out = c.reg(Reg::Rdx);
    let size_out = c.reg(Reg::R8);
    match s.locale {
        Some(p) => NlsOut {
            nls: s,
            vm: v,
            reply: answer_stores(
                m,
                locale_stores(base_out, lcid_out, size_out, p),
                STATUS_SUCCESS,
            ),
        },
        None => {
            let p = placed(v.next, m, locale_image());
            let w = VmView { next: p.next, ..v };
            match p.base {
                None => NlsOut { nls: s, vm: w, reply: answer(p.mem, STATUS_NO_MEMORY) },
                Some(b) => NlsOut {
                    nls: NlsView { locale: Some((b, LOCALE_SIZE as u64)), ..s },
                    vm: w,
                    reply: answer_stores(
                        p.mem,
                        locale_stores(
                            base_out,
                            lcid_out,
                            size_out,
                            (b, LOCALE_SIZE as u64),
                        ),
                        STATUS_SUCCESS,
                    ),
                },
            }
        },
    }
}

/// The image of a section type.
pub open spec fn section_image(ty: u32) -> Seq<u8> {
    if ty == 9 {
        image(0x280, sort_fields())
    } else {
        image(0x100, codepage_fields())
    }
}

/// `NtGetNlsSectionPtr`: the section of a type, mapped once for each type.
pub open spec fn nls_section_out(s: NlsView, v: VmView, rsp: u64, c: CpuView, m: MemView) -> NlsOut {
    let ty = c.reg(Reg::R10) as u32;
    let base_out = c.reg(Reg::R9);
    match sysarg_at(rsp, c, m, 4) {
        Err(f) => NlsOut { nls: s, vm: v, reply: faulted(m, f) },
        Ok(size_out) => match first_index(s.sections, of_type(ty)) {
            Some(i) => NlsOut {
                nls: s,
                vm: v,
                reply: answer_stores(
                    m,
                    opt(s64(base_out, s.sections[i].base)) + opt(
                        s64(size_out, s.sections[i].size),
                    ),
                    STATUS_SUCCESS,
                ),
            },
            None => {
                let p = placed(v.next, m, section_image(ty));
                let w = VmView { next: p.next, ..v };
                let size: u64 = if ty == 9 {
                    0x280
                } else {
                    0x100
                };
                match p.base {
                    None => NlsOut { nls: s, vm: w, reply: answer(p.mem, STATUS_NO_MEMORY) },
                    Some(b) => NlsOut {
                        nls: NlsView {
                            sections: s.sections.push(Section { ty, base: b, size }),
                            ..s
                        },
                        vm: w,
                        reply: answer_stores(
                            p.mem,
                            opt(s64(base_out, b)) + opt(s64(size_out, size)),
                            STATUS_SUCCESS,
                        ),
                    },
                }
            },
        },
    }
}

impl NlsState {
    /// Nothing is mapped.
    pub fn new() -> (s: NlsState)
        ensures
            s@ == (NlsView { locale: None, sections: Seq::empty() }),
    {
        NlsState { locale: None, sections: Vec::new() }
    }

    /// `NtInitializeNlsFiles`.
    pub fn nt_initialize_nls_files(
        &mut self,
        vm: &mut VmState,
        cpu: &CpuState,
        mem: &mut VirtualMemory,
    ) -> (r: Result<u64, Fault>)
        requires
            old(vm).wf(),
        ensures
            final(vm).wf(),
            ({
                let o = nls_files_out(old(self)@, old(vm)@, cpu@, old(mem)@);
                &&& final(self)@ == o.nls
                &&& final(vm)@ == o.vm
                &&& final(mem)@ == o.reply.mem
                &&& r == o.reply.r
            }),
    {
        let base_out: u64 = cpu.reg(Reg::R10);
        let lcid_out: u64 = cpu.reg(Reg::Rdx);
        let size_out: u64 = cpu.reg(Reg::R8);
        let p: (u64, u64) = match self.locale {
            Some(p) => p,
            None => {
                let blob = build_locale_nls();
                match map_nls_blob(vm, mem, &blob) {
                    Some(b) => {
                        self.locale = Some((b, LOCALE_SIZE as u64));
                        (b, LOCALE_SIZE as u64)
                    },
                    None => {
                        return Ok(STATUS_NO_MEMORY);
                    },
                }
            },
        };
        let mut t: Vec<Store> = Vec::new();
        push_opt(&mut t, store64(base_out, p.0));
        push_opt(&mut t, store32(lcid_out, SYSTEM_LCID));
        push_opt(&mut t, store64(size_out, p.1));
        assert(t@ =~= locale_stores(base_out, lcid_out, size_out, p));
        finish(mem, &t, STATUS_SUCCESS)
    }

    /// The mapped section of a type.
    fn find_section(&self, ty: u32) -> (r: Option<usize>)
        ensures
            match r {
                Some(i) => i < self.sections.len() && first_index(self.sections@, of_type(ty))
                    == Some(i as int),
                None => first_index(self.sections@, of_type(ty)) is None,
            },
    {
        let mut i: usize = 0;
        while i < self.sections.len()
            invariant
                i <= self.sections.len(),
                forall|j: int| 0 <= j < i ==> !of_type(ty)(#[trigger] self.sections@[j]),
            decreases self.sections.len() - i,
        {
            if self.sections[i].ty == ty {
                proof {
                    lemma_first_index_is(self.sections@, of_type(ty), i as int);
                }
                return Some(i);
            }
            i = i + 1;
        }
        proof {
            lemma_first_index_none(self.sections@, of_type(ty));
        }
        None
    }

    /// `NtGetNlsSectionPtr`.
    pub fn nt_get_nls_section_ptr(
        &mut self,
        vm: &mut VmState,
        rsp: u64,
        cpu: &CpuState,
        mem: &mut VirtualMemory,
    ) -> (r: Result<u64, Fault>)
        requires
            old(vm).wf(),
        ensures
            final(vm).wf(),
            ({
                let o = nls_section_out(old(self)@, old(vm)@, rsp, cpu@, old(mem)@);
                &&& final(self)@ == o.nls
                &&& final(vm)@ == o.vm
                &&& final(mem)@ == o.reply.mem
                &&& r == o.reply.r
            }),
    {
        let ty: u32 = cpu.reg(Reg::R10) as u32;
        let base_out: u64 = cpu.reg(Reg::R9);
        let size_out: u64 = match sysarg(rsp, cpu, mem, 4) {
            Ok(v) => v,
            Err(f) => {
                return Err(f);
            },
        };
        let s: Section = match self.find_section(ty) {
            Some(i) => self.sections[i],
            None => {
                let blob = if ty == 9 {
                    build_sort_nls()
                } else {
                    build_codepage_nls()
                };
                match map_nls_blob(vm, mem, &blob) {
                    Some(b) => {
                        let s = Section { ty, base: b, size: blob.len() as u64 };
                        self.sections.push(s);
                        s
                    },
                    None => {
                        return Ok(STATUS_NO_MEMORY);
                    },
                }
            },
        };
        let mut t: Vec<Store> = Vec::new();
        push_opt(&mut t, store64(base_out, s.base));
        push_opt(&mut t, store64(size_out, s.size));
        assert(t@ =~= opt(s64(base_out, s.base)) + opt(s64(size_out, s.size)));
        finish(mem, &t, STATUS_SUCCESS)
    }
}

/// The locale database is mapped once: after a call that mapped it, the next call
/// reports the same base and size and maps nothing.
pub proof fn lemma_locale_mapped_once(
    s: NlsView,
    v: VmView,
    c: CpuView,
    m: MemView,
    c2: CpuView,
    m2: MemView,
)
    requires
        nls_files_out(s, v, c, m).nls.locale is Some,
    ensures
        ({
            let o = nls_files_out(s, v, c, m);
            let o2 = nls_files_out(o.nls, o.vm, c2, m2);
            &&& o2.nls == o.nls
            &&& o2.vm == o.vm
            &&& o2.reply == answer_stores(
                m2,
                locale_stores(
                    c2.reg(Reg::R10),
                    c2.reg(Reg::Rdx),
                    c2.reg(Reg::R8),
                    o.nls.locale->0,
                ),
                STATUS_SUCCESS,
            )
        }),
{
}

} // verus!
