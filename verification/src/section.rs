//! Section objects and the views that are mapped of them.

use vstd::prelude::*;

use std::collections::HashMap;

use crate::call::{answer, answer_stores, faulted, follow, sysargs, sysargs_at, Reply};
use crate::cpu::{CpuState, CpuView};
use crate::fs::{FileTable, FsView};
use crate::host::{HostReply, HostRequest, RequestView};
use crate::mem::{
    at, ga, opt, piece_blocks, push_opt, s16, s32, s64, s8, store16, store32, store64, store8,
    write_blocks, write_pieces, Block, Fault, MemView, Perm, Piece, Store, VirtualMemory,
};
use crate::nls::{build_image, image};
use crate::ntreg::{
    finish, STATUS_INVALID_HANDLE, STATUS_INVALID_PARAMETER, STATUS_SUCCESS,
};
use crate::ntvm::STATUS_NO_MEMORY;
use crate::util::{
    align_down, align_up, first_index, lemma_first_index_is, lemma_first_index_none,
    lemma_round_up, max_int, min_int, round_down, round_up,
};
use crate::vm::{
    any_map, free_out, starting, VmAlloc, VmState, VmView, MEM_IMAGE, MEM_MAPPED, MEM_RELEASE,
};

verus! {

broadcast use vstd::std_specs::hash::group_hash_axioms;

pub const STATUS_INVALID_INFO_CLASS: u64 = 0xC000_0003;

pub const STATUS_INFO_LENGTH_MISMATCH: u64 = 0xC000_0004;

/// Map as an image.
pub const SEC_IMAGE: u32 = 0x0100_0000;

/// Bytes of an image record.
pub const SECTION_IMAGE_INFORMATION_LEN: u64 = 0x40;

/// Where a part of an image goes.
pub struct ImageSection {
    pub rva: u32,
    pub virtual_size: u32,
    pub data: Vec<u8>,
}

/// Where a part of an image goes, as mathematics.
pub struct ImageSectionView {
    pub rva: u32,
    pub virtual_size: u32,
    pub data: Seq<u8>,
}

impl View for ImageSection {
    type V = ImageSectionView;

    open spec fn view(&self) -> ImageSectionView {
        ImageSectionView { rva: self.rva, virtual_size: self.virtual_size, data: self.data@ }
    }
}

/// The layout of an image, with addresses as if it lay at its preferred base.
pub struct SectionImage {
    pub image_base: u64,
    pub size_of_image: u64,
    pub entry_rva: u32,
    pub subsystem: u16,
    pub stack_reserve: u64,
    pub headers: Vec<u8>,
    pub sections: Vec<ImageSection>,
}

/// The layout of an image as mathematics.
pub struct ImageView {
    pub image_base: u64,
    pub size_of_image: u64,
    pub entry_rva: u32,
    pub subsystem: u16,
    pub stack_reserve: u64,
    pub headers: Seq<u8>,
    pub sections: Seq<ImageSectionView>,
}

/// The views of the parts of an image.
pub open spec fn part_views(s: Seq<ImageSection>) -> Seq<ImageSectionView> {
    Seq::new(s.len(), |i: int| s[i]@)
}

impl View for SectionImage {
    type V = ImageView;

    open spec fn view(&self) -> ImageView {
        ImageView {
            image_base: self.image_base,
            size_of_image: self.size_of_image,
            entry_rva: self.entry_rva,
            subsystem: self.subsystem,
            stack_reserve: self.stack_reserve,
            headers: self.headers@,
            sections: part_views(self.sections@),
        }
    }
}

/// A section object.
pub struct Section {
    /// What backs it: the content of a file, or nothing.
    pub data: Vec<u8>,
    /// Its size in whole pages.
    pub size: u64,
    /// The memory type of its views.
    pub mtype: u32,
    pub protect: u32,
    /// Its layout, where it is an image.
    pub image: Option<SectionImage>,
}

/// A section object as mathematics.
pub struct SectionView {
    pub data: Seq<u8>,
    pub size: u64,
    pub mtype: u32,
    pub protect: u32,
    pub image: Option<ImageView>,
}

/// The view of an optional layout.
pub open spec fn image_view(i: Option<SectionImage>) -> Option<ImageView> {
    match i {
        Some(x) => Some(x@),
        None => None,
    }
}

impl View for Section {
    type V = SectionView;

    open spec fn view(&self) -> SectionView {
        SectionView {
            data: self.data@,
            size: self.size,
            mtype: self.mtype,
            protect: self.protect,
            image: image_view(self.image),
        }
    }
}

/// The sections of a process by handle.
pub struct SectionTable {
    pub sections: HashMap<u64, Section>,
}

/// The views of sections.
pub open spec fn section_views(m: Map<u64, Section>) -> Map<u64, SectionView> {
    Map::new(|h: u64| m.contains_key(h), |h: u64| m[h]@)
}

impl View for SectionTable {
    type V = Map<u64, SectionView>;

    open spec fn view(&self) -> Map<u64, SectionView> {
        section_views(self.sections@)
    }
}

// ---- creation ---------------------------------------------------------------

/// What `NtCreateSection` asks the host for: the content of its file.
pub open spec fn create_asks(fs: FsView, rsp: u64, c: CpuView, m: MemView) -> RequestView {
    match sysargs_at(rsp, c, m, seq![0, 3, 4, 5, 6]) {
        Err(_) => RequestView::Nothing,
        Ok(a) => if a[0] != 0 && a[4] != 0 && fs.is_file(a[4]) {
            RequestView::Content { handle: a[4], image: a[3] as u32 & SEC_IMAGE != 0 }
        } else {
            RequestView::Nothing
        },
    }
}

/// What backs a new section; none where its file cannot be read.
pub open spec fn backing(fs: FsView, file: u64, is_image: bool, host: HostReply) -> Option<
    (Seq<u8>, Option<ImageView>),
> {
    if file == 0 {
        Some((Seq::empty(), None))
    } else if !fs.is_file(file) {
        None
    } else {
        match host {
            HostReply::Content { data, image } => Some(
                (
                    data@,
                    if is_image && data@.len() > 0 {
                        image_view(image)
                    } else {
                        None
                    },
                ),
            ),
            _ => None,
        }
    }
}

/// The size of a section: the largest of what is asked for, of the image and of
/// the data, in whole pages.
pub open spec fn section_size(requested: u64, data: Seq<u8>, image: Option<ImageView>) -> int {
    let i = match image {
        Some(x) => x.size_of_image as int,
        None => 0,
    };
    round_up(max_int(max_int(max_int(requested as int, i), data.len() as int), 1), 0x1000)
}

/// What a section call leads to.
pub struct SectionOut {
    pub sections: Map<u64, SectionView>,
    pub next: u64,
    pub vm: VmView,
    pub reply: Reply,
}

/// `NtCreateSection`, given the content of its file. A size that does not fit an
/// address space is refused.
pub open spec fn create_out(
    s: Map<u64, SectionView>,
    next: u64,
    v: VmView,
    fs: FsView,
    rsp: u64,
    c: CpuView,
    m: MemView,
    host: HostReply,
) -> SectionOut {
    match sysargs_at(rsp, c, m, seq![0, 3, 4, 5, 6]) {
        Err(f) => SectionOut { sections: s, next, vm: v, reply: faulted(m, f) },
        Ok(a) => {
            let is_image = a[3] as u32 & SEC_IMAGE != 0;
            if a[0] == 0 {
                SectionOut { sections: s, next, vm: v, reply: answer(m, STATUS_INVALID_PARAMETER) }
            } else {
                match backing(fs, a[4], is_image, host) {
                    None => SectionOut {
                        sections: s,
                        next,
                        vm: v,
                        reply: answer(m, STATUS_INVALID_HANDLE),
                    },
                    Some((data, image)) => {
                        let requested = if a[1] != 0 {
                            m.r64(a[1])
                        } else {
                            Ok(0)
                        };
                        match requested {
                            Err(f) => SectionOut {
                                sections: s,
                                next,
                                vm: v,
                                reply: faulted(m, f),
                            },
                            Ok(q) => {
                                let size = section_size(q, data, image);
                                if size > u64::MAX {
                                    SectionOut {
                                        sections: s,
                                        next,
                                        vm: v,
                                        reply: answer(m, STATUS_NO_MEMORY),
                                    }
                                } else {
                                    SectionOut {
                                        sections: s.insert(
                                            next,
                                            SectionView {
                                                data,
                                                size: size as u64,
                                                mtype: if is_image {
                                                    MEM_IMAGE
                                                } else {
                                                    MEM_MAPPED
                                                },
                                                protect: a[2] as u32,
                                                image,
                                            },
                                        ),
                                        next: (next + 4) as u64,
                                        vm: v,
                                        reply: answer_stores(
                                            m,
                                            seq![s64(a[0], next)],
                                            STATUS_SUCCESS,
                                        ),
                                    }
                                }
                            },
                        }
                    },
                }
            }
        },
    }
}

// ---- queries ----------------------------------------------------------------

/// The fields of an image record: entry point, stack sizes, subsystem, machine,
/// and that it holds code.
pub open spec fn info_fields(i: ImageView) -> Seq<Store> {
    seq![
        s64(0x00, ga(i.image_base, i.entry_rva as int)),
        s64(
            0x10,
            if i.stack_reserve > 0x1000 {
                i.stack_reserve
            } else {
                0x1000
            },
        ),
        s64(0x18, 0x1000),
        s32(0x20, i.subsystem as u32),
        s16(0x30, 0x8664),
        s8(0x32, 1),
    ]
}

/// `NtQuerySection`: the image record of an image section.
pub open spec fn query_reply(s: Map<u64, SectionView>, rsp: u64, c: CpuView, m: MemView) -> Reply {
    match sysargs_at(rsp, c, m, seq![0, 1, 2, 3, 4]) {
        Err(f) => faulted(m, f),
        Ok(a) => if !s.contains_key(a[0]) {
            answer(m, STATUS_INVALID_HANDLE)
        } else if a[1] != 1 {
            answer(m, STATUS_INVALID_INFO_CLASS)
        } else if a[2] == 0 {
            answer(m, STATUS_INVALID_PARAMETER)
        } else if a[3] < SECTION_IMAGE_INFORMATION_LEN {
            answer_stores(
                m,
                opt(s64(a[4], SECTION_IMAGE_INFORMATION_LEN)),
                STATUS_INFO_LENGTH_MISMATCH,
            )
        } else {
            match s[a[0]].image {
                None => answer(m, STATUS_INVALID_INFO_CLASS),
                Some(i) => follow(
                    m.write(a[2], image(0x40, info_fields(i))),
                    |k: MemView|
                        answer_stores(
                            k,
                            opt(s64(a[4], SECTION_IMAGE_INFORMATION_LEN)),
                            STATUS_SUCCESS,
                        ),
                ),
            }
        },
    }
}

// ---- views ------------------------------------------------------------------

/// Where the region of a view goes: at the asked base, rounded down to 64 KiB,
/// or anywhere.
pub open spec fn view_place(v: VmView, m: MemView, asked: u64, size: u64) -> (
    VmView,
    MemView,
    Option<u64>,
) {
    if asked != 0 {
        let b = round_down(asked as int, 0x1_0000) as u64;
        if m.can_map(b, size) {
            (v, m.mapped(b, size, Perm::spec_rwx()), Some(b))
        } else {
            (v, m, None)
        }
    } else {
        let a = any_map(v.next, m, size, Perm::spec_rwx());
        (VmView { next: a.next, ..v }, a.mem, a.base)
    }
}

/// The part of some data that a view shows from `offset` on.
pub open spec fn shown(data: Seq<u8>, offset: u64, size: u64) -> Seq<u8> {
    let start = min_int(offset as int, data.len() as int);
    data.subrange(start, start + min_int(size as int, data.len() - start))
}

/// The part of an image section that fits its virtual size and the view.
pub open spec fn fitting_part(p: ImageSectionView, size: u64) -> Seq<u8> {
    let end = min_int(p.rva + p.virtual_size, size as int);
    let room = max_int(end - p.rva, 0);
    p.data.take(min_int(p.data.len() as int, room))
}

/// The headers and the parts of an image, each at its offset from the base.
pub open spec fn image_blocks(i: ImageView, base: u64, size: u64) -> Seq<Block> {
    seq![
        Block {
            addr: base,
            data: i.headers.take(min_int(i.headers.len() as int, size as int)),
        },
    ] + Seq::new(
        i.sections.len(),
        |k: int|
            Block {
                addr: ga(base, i.sections[k].rva as int),
                data: fitting_part(i.sections[k], size),
            },
    )
}

/// A view that was mapped: its content, its reservation, and what the caller is
/// told.
pub open spec fn view_done(
    s: Map<u64, SectionView>,
    next: u64,
    place: (VmView, MemView, Option<u64>),
    blocks: spec_fn(u64) -> Seq<Block>,
    size: u64,
    protect: u32,
    mtype: u32,
    told: spec_fn(u64) -> Seq<Store>,
) -> SectionOut {
    match place.2 {
        None => SectionOut {
            sections: s,
            next,
            vm: place.0,
            reply: answer(place.1, STATUS_NO_MEMORY),
        },
        Some(b) => {
            let w = write_blocks(place.1, blocks(b));
            match w.fault {
                Some(f) => SectionOut {
                    sections: s,
                    next,
                    vm: place.0,
                    reply: faulted(w.mem, f),
                },
                None => SectionOut {
                    sections: s,
                    next,
                    vm: place.0.with(
                        VmAlloc { base: b, size, protect, committed: true, mtype },
                    ),
                    reply: answer_stores(w.mem, told(b), STATUS_SUCCESS),
                },
            }
        },
    }
}

/// The size of a view of a section that is no image: the asked size, or the rest
/// of the section, in whole pages.
pub open spec fn flat_size(want: u64, section: u64, offset: u64) -> int {
    if want != 0 {
        round_up(want as int, 0x1000)
    } else {
        round_up(max_int(section - offset, 1), 0x1000)
    }
}

/// A number that is read from a variable, where there is one.
pub open spec fn opt_read(m: MemView, p: u64) -> Result<u64, Fault> {
    if p != 0 {
        m.r64(p)
    } else {
        Ok(0)
    }
}

/// A view of a section that is no image.
pub open spec fn flat_out(
    s: Map<u64, SectionView>,
    next: u64,
    v: VmView,
    m: MemView,
    h: u64,
    base_ptr: u64,
    offset_ptr: u64,
    size_ptr: u64,
) -> SectionOut {
    let sec = s[h];
    match opt_read(m, offset_ptr) {
        Err(f) => SectionOut { sections: s, next, vm: v, reply: faulted(m, f) },
        Ok(offset) => match m.r64(size_ptr) {
            Err(f) => SectionOut { sections: s, next, vm: v, reply: faulted(m, f) },
            Ok(want) => match m.r64(base_ptr) {
                Err(f) => SectionOut { sections: s, next, vm: v, reply: faulted(m, f) },
                Ok(asked) => {
                    let n = flat_size(want, sec.size, offset);
                    if n > u64::MAX {
                        SectionOut { sections: s, next, vm: v, reply: answer(m, STATUS_NO_MEMORY) }
                    } else {
                        let size = n as u64;
                        view_done(
                            s,
                            next,
                            view_place(v, m, asked, size),
                            |b: u64| seq![Block { addr: b, data: shown(sec.data, offset, size) }],
                            size,
                            sec.protect,
                            sec.mtype,
                            |b: u64|
                                seq![s64(base_ptr, b), s64(size_ptr, size)] + opt(
                                    s64(offset_ptr, offset),
                                ),
                        )
                    }
                },
            },
        },
    }
}

/// A view of an image section: headers and parts at their offsets, with the
/// addresses in them as they are.
pub open spec fn image_out(
    s: Map<u64, SectionView>,
    next: u64,
    v: VmView,
    m: MemView,
    h: u64,
    base_ptr: u64,
    offset_ptr: u64,
    size_ptr: u64,
) -> SectionOut {
    let i = s[h].image->0;
    let n = round_up(max_int(i.size_of_image as int, 0x1000), 0x1000);
    match m.r64(base_ptr) {
        Err(f) => SectionOut { sections: s, next, vm: v, reply: faulted(m, f) },
        Ok(asked) => if n > u64::MAX {
            SectionOut { sections: s, next, vm: v, reply: answer(m, STATUS_NO_MEMORY) }
        } else {
            let size = n as u64;
            view_done(
                s,
                next,
                view_place(v, m, asked, size),
                |b: u64| image_blocks(i, b, size),
                size,
                s[h].protect,
                MEM_IMAGE,
                |b: u64|
                    seq![s64(base_ptr, b), s64(size_ptr, size)] + opt(s64(offset_ptr, 0)),
            )
        },
    }
}

/// `NtMapViewOfSection`.
pub open spec fn map_out(
    s: Map<u64, SectionView>,
    next: u64,
    v: VmView,
    rsp: u64,
    c: CpuView,
    m: MemView,
) -> SectionOut {
    match sysargs_at(rsp, c, m, seq![0, 2, 5, 6]) {
        Err(f) => SectionOut { sections: s, next, vm: v, reply: faulted(m, f) },
        Ok(a) => if a[1] == 0 || a[3] == 0 {
            SectionOut { sections: s, next, vm: v, reply: answer(m, STATUS_INVALID_PARAMETER) }
        } else if !s.contains_key(a[0]) {
            SectionOut { sections: s, next, vm: v, reply: answer(m, STATUS_INVALID_HANDLE) }
        } else if s[a[0]].image is Some {
            image_out(s, next, v, m, a[0], a[1], a[2], a[3])
        } else {
            flat_out(s, next, v, m, a[0], a[1], a[2], a[3])
        },
    }
}

/// `NtUnmapViewOfSection`: the view that starts at the page of the address.
pub open spec fn unmap_out(v: VmView, rsp: u64, c: CpuView, m: MemView) -> (VmView, Reply) {
    match sysargs_at(rsp, c, m, seq![1]) {
        Err(f) => (v, faulted(m, f)),
        Ok(a) => {
            let b = round_down(a[0] as int, 0x1000) as u64;
            if first_index(v.allocs, starting(b)) is None {
                (v, answer(m, STATUS_INVALID_PARAMETER))
            } else {
                let o = free_out(v, m, a[0], MEM_RELEASE);
                (o.0, answer(o.1, STATUS_SUCCESS))
            }
        },
    }
}

// ---- calls ------------------------------------------------------------------

/// Some bytes of a buffer.
pub fn sub_bytes(d: &Vec<u8>, from: usize, to: usize) -> (r: Vec<u8>)
    requires
        from <= to <= d.len(),
    ensures
        r@ == d@.subrange(from as int, to as int),
{
    let mut out: Vec<u8> = Vec::new();
    let mut i: usize = from;
    while i < to
        invariant
            from <= i <= to <= d.len(),
            out@ == d@.subrange(from as int, i as int),
        decreases to - i,
    {
        out.push(d[i]);
        i = i + 1;
        assert(out@ =~= d@.subrange(from as int, i as int));
    }
    assert(out@ =~= d@.subrange(from as int, to as int));
    out
}

/// Map the region of a view.
fn place_view(vm: &mut VmState, mem: &mut VirtualMemory, asked: u64, size: u64) -> (r: Option<u64>)
    requires
        size > 0,
        old(vm).wf(),
    ensures
        final(vm).wf(),
        (final(vm)@, final(mem)@, r) == view_place(old(vm)@, old(mem)@, asked, size),
        r is Some ==> r->0 + size <= u64::MAX,
{
    if asked != 0 {
        let b: u64 = align_down(asked, 0x1_0000);
        match mem.map_fixed(b, size, Perm::rwx()) {
            Ok(_) => Some(b),
            Err(_) => None,
        }
    } else {
        vm.map_anywhere(mem, size, Perm::rwx())
    }
}

/// A number that is read from a variable, where there is one.
fn read_opt(mem: &VirtualMemory, p: u64) -> (r: Result<u64, Fault>)
    ensures
        r == opt_read(mem@, p),
{
    if p != 0 {
        mem.read_u64(p)
    } else {
        Ok(0)
    }
}

impl SectionTable {
    /// No section.
    pub fn new() -> (t: SectionTable)
        ensures
            t@ == Map::<u64, SectionView>::empty(),
    {
        let t = SectionTable { sections: HashMap::new() };
        assert(t@ =~= Map::<u64, SectionView>::empty());
        t
    }

    /// What `NtCreateSection` asks the host for.
    pub fn nt_create_section_request(
        files: &FileTable,
        rsp: u64,
        cpu: &CpuState,
        mem: &VirtualMemory,
    ) -> (r: HostRequest)
        ensures
            r@ == create_asks(files@, rsp, cpu@, mem@),
    {
        let list: Vec<u64> = vec![0, 3, 4, 5, 6];
        assert(list@ =~= seq![0u64, 3, 4, 5, 6]);
        let a = match sysargs(rsp, cpu, mem, &list) {
            Ok(v) => v,
            Err(_) => {
                return HostRequest::Nothing;
            },
        };
        if a[0] != 0 && a[4] != 0 && files.is_file_handle(a[4]) {
            HostRequest::Content { handle: a[4], image: a[3] as u32 & SEC_IMAGE != 0 }
        } else {
            HostRequest::Nothing
        }
    }

    /// `NtCreateSection`, with the content of its file.
    pub fn nt_create_section(
        &mut self,
        next: &mut u64,
        vm: &VmState,
        files: &FileTable,
        rsp: u64,
        cpu: &CpuState,
        mem: &mut VirtualMemory,
        host: HostReply,
    ) -> (r: Result<u64, Fault>)
        requires
            *old(next) <= u64::MAX - 4,
        ensures
            ({
                let o = create_out(
                    old(self)@,
                    *old(next),
                    vm@,
                    files@,
                    rsp,
                    cpu@,
                    old(mem)@,
                    host,
                );
                &&& final(self)@ == o.sections
                &&& *final(next) == o.next
                &&& final(mem)@ == o.reply.mem
                &&& r == o.reply.r
            }),
    {
        let list: Vec<u64> = vec![0, 3, 4, 5, 6];
        assert(list@ =~= seq![0u64, 3, 4, 5, 6]);
        let a = match sysargs(rsp, cpu, mem, &list) {
            Ok(v) => v,
            Err(f) => {
                return Err(f);
            },
        };
        let is_image: bool = a[3] as u32 & SEC_IMAGE != 0;
        if a[0] == 0 {
            return Ok(STATUS_INVALID_PARAMETER);
        }
        let ghost wanted = backing(files@, a@[4], is_image, host);
        let (data, img): (Vec<u8>, Option<SectionImage>) = if a[4] == 0 {
            let none: Vec<u8> = Vec::new();
            assert(none@ =~= Seq::<u8>::empty());
            (none, None)
        } else if !files.is_file_handle(a[4]) {
            return Ok(STATUS_INVALID_HANDLE);
        } else {
            match host {
                HostReply::Content { data, image } => {
                    if is_image && data.len() > 0 {
                        (data, image)
                    } else {
                        (data, None)
                    }
                },
                _ => {
                    return Ok(STATUS_INVALID_HANDLE);
                },
            }
        };
        assert(wanted == Some((data@, image_view(img))));
        let requested: u64 = match read_opt(mem, a[1]) {
            Ok(v) => v,
            Err(f) => {
                return Err(f);
            },
        };
        let mut want: u64 = if requested > 1 {
            requested
        } else {
            1
        };
        if let Some(i) = &img {
            if i.size_of_image > want {
                want = i.size_of_image;
            }
        }
        if data.len() as u64 > want {
            want = data.len() as u64;
        }
        proof {
            lemma_round_up(want as int, 0x1000);
            assert(round_up(want as int, 0x1000) == section_size(
                requested,
                data@,
                image_view(img),
            ));
        }
        let size: u64 = match align_up(want, 0x1000) {
            Some(s) => s,
            None => {
                return Ok(STATUS_NO_MEMORY);
            },
        };
        let mtype: u32 = if is_image {
            MEM_IMAGE
        } else {
            MEM_MAPPED
        };
        let ghost s = self@;
        let h: u64 = *next;
        *next = h + 4;
        let sec = Section { data, size, mtype, protect: a[2] as u32, image: img };
        let ghost sv = sec@;
        let _prev = self.sections.insert(h, sec);
        assert(self@ =~= s.insert(h, sv));
        let t: Vec<Store> = vec![store64(a[0], h)];
        assert(t@ =~= seq![s64(a[0], h)]);
        finish(mem, &t, STATUS_SUCCESS)
    }

    /// `NtQuerySection`.
    pub fn nt_query_section(&self, rsp: u64, cpu: &CpuState, mem: &mut VirtualMemory) -> (r: Result<
        u64,
        Fault,
    >)
        ensures
            final(mem)@ == query_reply(self@, rsp, cpu@, old(mem)@).mem,
            r == query_reply(self@, rsp, cpu@, old(mem)@).r,
    {
        let list: Vec<u64> = vec![0, 1, 2, 3, 4];
        assert(list@ =~= seq![0u64, 1, 2, 3, 4]);
        let a = match sysargs(rsp, cpu, mem, &list) {
            Ok(v) => v,
            Err(f) => {
                return Err(f);
            },
        };
        let sec = match self.sections.get(&a[0]) {
            Some(s) => s,
            None => {
                return Ok(STATUS_INVALID_HANDLE);
            },
        };
        if a[1] != 1 {
            return Ok(STATUS_INVALID_INFO_CLASS);
        }
        if a[2] == 0 {
            return Ok(STATUS_INVALID_PARAMETER);
        }
        let mut told: Vec<Store> = Vec::new();
        push_opt(&mut told, store64(a[4], SECTION_IMAGE_INFORMATION_LEN));
        assert(told@ =~= opt(s64(a[4], SECTION_IMAGE_INFORMATION_LEN)));
        if a[3] < SECTION_IMAGE_INFORMATION_LEN {
            return finish(mem, &told, STATUS_INFO_LENGTH_MISMATCH);
        }
        let i = match &sec.image {
            Some(i) => i,
            None => {
                return Ok(STATUS_INVALID_INFO_CLASS);
            },
        };
        let stack: u64 = if i.stack_reserve > 0x1000 {
            i.stack_reserve
        } else {
            0x1000
        };
        let t: Vec<Store> = vec![
            store64(0x00, at(i.image_base, i.entry_rva as u64)),
            store64(0x10, stack),
            store64(0x18, 0x1000),
            store32(0x20, i.subsystem as u32),
            store16(0x30, 0x8664),
            store8(0x32, 1),
        ];
        assert(t@ =~= info_fields(i@));
        let b = build_image(0x40, &t);
        match mem.write(a[2], &b) {
            Ok(_) => {},
            Err(f) => {
                return Err(f);
            },
        }
        finish(mem, &told, STATUS_SUCCESS)
    }

    /// `NtMapViewOfSection`.
    pub fn nt_map_view_of_section(
        &self,
        vm: &mut VmState,
        rsp: u64,
        cpu: &CpuState,
        mem: &mut VirtualMemory,
    ) -> (r: Result<u64, Fault>)
        requires
            old(vm).wf(),
        ensures
            final(vm).wf(),
            ({
                let o = map_out(self@, 0, old(vm)@, rsp, cpu@, old(mem)@);
                &&& final(vm)@ == o.vm
                &&& final(mem)@ == o.reply.mem
                &&& r == o.reply.r
            }),
    {
        let list: Vec<u64> = vec![0, 2, 5, 6];
        assert(list@ =~= seq![0u64, 2, 5, 6]);
        let a = match sysargs(rsp, cpu, mem, &list) {
            Ok(v) => v,
            Err(f) => {
                return Err(f);
            },
        };
        if a[1] == 0 || a[3] == 0 {
            return Ok(STATUS_INVALID_PARAMETER);
        }
        let sec = match self.sections.get(&a[0]) {
            Some(s) => s,
            None => {
                return Ok(STATUS_INVALID_HANDLE);
            },
        };
        match &sec.image {
            Some(i) => self.map_image_view(vm, mem, a[0], sec, i, a[1], a[2], a[3]),
            None => self.map_flat_view(vm, mem, a[0], sec, a[1], a[2], a[3]),
        }
    }

    /// Map a view of a section that is no image.
    fn map_flat_view(
        &self,
        vm: &mut VmState,
        mem: &mut VirtualMemory,
        h: u64,
        sec: &Section,
        base_ptr: u64,
        offset_ptr: u64,
        size_ptr: u64,
    ) -> (r: Result<u64, Fault>)
        requires
            old(vm).wf(),
            self@.contains_key(h),
            sec@ == self@[h],
        ensures
            final(vm).wf(),
            ({
                let o = flat_out(
                    self@,
                    0,
                    old(vm)@,
                    old(mem)@,
                    h,
                    base_ptr,
                    offset_ptr,
                    size_ptr,
                );
                &&& final(vm)@ == o.vm
                &&& final(mem)@ == o.reply.mem
                &&& r == o.reply.r
            }),
    {
        let offset: u64 = match read_opt(mem, offset_ptr) {
            Ok(v) => v,
            Err(f) => {
                return Err(f);
            },
        };
        let want: u64 = match mem.read_u64(size_ptr) {
            Ok(v) => v,
            Err(f) => {
                return Err(f);
            },
        };
        let asked: u64 = match mem.read_u64(base_ptr) {
            Ok(v) => v,
            Err(f) => {
                return Err(f);
            },
        };
        let rest: u64 = if want != 0 {
            want
        } else if sec.size > offset {
            sec.size - offset
        } else {
            1
        };
        proof {
            lemma_round_up(rest as int, 0x1000);
            assert(round_up(rest as int, 0x1000) == flat_size(want, sec.size, offset));
        }
        let size: u64 = match align_up(rest, 0x1000) {
            Some(s) => s,
            None => {
                return Ok(STATUS_NO_MEMORY);
            },
        };
        let base: u64 = match place_view(vm, mem, asked, size) {
            Some(b) => b,
            None => {
                return Ok(STATUS_NO_MEMORY);
            },
        };
        let len: usize = sec.data.len();
        let start: usize = if offset < len as u64 {
            offset as usize
        } else {
            len
        };
        let n: usize = if size < (len - start) as u64 {
            size as usize
        } else {
            len - start
        };
        let d = sub_bytes(&sec.data, start, start + n);
        let ps: Vec<Piece> = vec![Piece { addr: base, data: d }];
        proof {
            let b: Seq<Block> = seq![
                Block { addr: base, data: shown(sec.data@, offset, size) },
            ];
            assert(piece_blocks(ps@) =~= b);
        }
        match write_pieces(mem, &ps) {
            Ok(_) => {},
            Err(f) => {
                return Err(f);
            },
        }
        vm.insert(
            VmAlloc { base, size, protect: sec.protect, committed: true, mtype: sec.mtype },
        );
        let mut t: Vec<Store> = vec![store64(base_ptr, base), store64(size_ptr, size)];
        push_opt(&mut t, store64(offset_ptr, offset));
        assert(t@ =~= seq![s64(base_ptr, base), s64(size_ptr, size)] + opt(
            s64(offset_ptr, offset),
        ));
        finish(mem, &t, STATUS_SUCCESS)
    }

    /// Map a view of an image section.
    fn map_image_view(
        &self,
        vm: &mut VmState,
        mem: &mut VirtualMemory,
        h: u64,
        sec: &Section,
        i: &SectionImage,
        base_ptr: u64,
        offset_ptr: u64,
        size_ptr: u64,
    ) -> (r: Result<u64, Fault>)
        requires
            old(vm).wf(),
            self@.contains_key(h),
            sec@ == self@[h],
            sec@.image == Some(i@),
        ensures
            final(vm).wf(),
            ({
                let o = image_out(
                    self@,
                    0,
                    old(vm)@,
                    old(mem)@,
                    h,
                    base_ptr,
                    offset_ptr,
                    size_ptr,
                );
                &&& final(vm)@ == o.vm
                &&& final(mem)@ == o.reply.mem
                &&& r == o.reply.r
            }),
    {
        let asked: u64 = match mem.read_u64(base_ptr) {
            Ok(v) => v,
            Err(f) => {
                return Err(f);
            },
        };
        let want: u64 = if i.size_of_image > 0x1000 {
            i.size_of_image
        } else {
            0x1000
        };
        proof {
            lemma_round_up(want as int, 0x1000);
        }
        let size: u64 = match align_up(want, 0x1000) {
            Some(s) => s,
            None => {
                return Ok(STATUS_NO_MEMORY);
            },
        };
        let base: u64 = match place_view(vm, mem, asked, size) {
            Some(b) => b,
            None => {
                return Ok(STATUS_NO_MEMORY);
            },
        };
        let ps = image_pieces(i, base, size);
        match write_pieces(mem, &ps) {
            Ok(_) => {},
            Err(f) => {
                return Err(f);
            },
        }
        vm.insert(
            VmAlloc { base, size, protect: sec.protect, committed: true, mtype: MEM_IMAGE },
        );
        let mut t: Vec<Store> = vec![store64(base_ptr, base), store64(size_ptr, size)];
        push_opt(&mut t, store64(offset_ptr, 0));
        assert(t@ =~= seq![s64(base_ptr, base), s64(size_ptr, size)] + opt(s64(offset_ptr, 0)));
        finish(mem, &t, STATUS_SUCCESS)
    }

    /// `NtUnmapViewOfSection`.
    pub fn nt_unmap_view_of_section(
        vm: &mut VmState,
        rsp: u64,
        cpu: &CpuState,
        mem: &mut VirtualMemory,
    ) -> (r: Result<u64, Fault>)
        requires
            old(vm).wf(),
        ensures
            final(vm).wf(),
            ({
                let o = unmap_out(old(vm)@, rsp, cpu@, old(mem)@);
                &&& final(vm)@ == o.0
                &&& final(mem)@ == o.1.mem
                &&& r == o.1.r
            }),
    {
        let list: Vec<u64> = vec![1];
        assert(list@ =~= seq![1u64]);
        let a = match sysargs(rsp, cpu, mem, &list) {
            Ok(v) => v,
            Err(f) => {
                return Err(f);
            },
        };
        let base: u64 = align_down(a[0], 0x1000);
        let mut i: usize = 0;
        let ghost s = vm.allocs@;
        while i < vm.allocs.len() && vm.allocs[i].base != base
            invariant
                i <= vm.allocs.len(),
                s == vm.allocs@,
                *vm == *old(vm),
                forall|j: int| 0 <= j < i ==> (#[trigger] s[j]).base != base,
            decreases vm.allocs.len() - i,
        {
            i = i + 1;
        }
        if i >= vm.allocs.len() {
            proof {
                lemma_first_index_none(s, starting(base));
            }
            return Ok(STATUS_INVALID_PARAMETER);
        }
        proof {
            lemma_first_index_is(s, starting(base), i as int);
        }
        vm.free_region(mem, a[0], MEM_RELEASE);
        Ok(STATUS_SUCCESS)
    }
}

/// The pieces of an image.
fn image_pieces(i: &SectionImage, base: u64, size: u64) -> (ps: Vec<Piece>)
    ensures
        piece_blocks(ps@) == image_blocks(i@, base, size),
{
    let hl: usize = if size < i.headers.len() as u64 {
        size as usize
    } else {
        i.headers.len()
    };
    let head = sub_bytes(&i.headers, 0, hl);
    assert(head@ =~= i.headers@.take(min_int(i.headers.len() as int, size as int)));
    let mut ps: Vec<Piece> = vec![Piece { addr: base, data: head }];
    let ghost want = image_blocks(i@, base, size);
    let mut k: usize = 0;
    while k < i.sections.len()
        invariant
            k <= i.sections.len(),
            ps.len() == k + 1,
            want == image_blocks(i@, base, size),
            forall|j: int|
                0 <= j < ps.len() ==> (Block {
                    addr: (#[trigger] ps@[j]).addr,
                    data: ps@[j].data@,
                }) == want[j],
        decreases i.sections.len() - k,
    {
        let p = &i.sections[k];
        let rva: u64 = p.rva as u64;
        let mut end: u64 = rva + p.virtual_size as u64;
        if size < end {
            end = size;
        }
        let room: u64 = if end > rva {
            end - rva
        } else {
            0
        };
        let n: usize = if room < p.data.len() as u64 {
            room as usize
        } else {
            p.data.len()
        };
        let d = sub_bytes(&p.data, 0, n);
        assert(d@ =~= fitting_part(p@, size));
        ps.push(Piece { addr: at(base, rva), data: d });
        assert(want[k + 1] == (Block {
            addr: ga(base, i@.sections[k as int].rva as int),
            data: fitting_part(i@.sections[k as int], size),
        }));
        k = k + 1;
    }
    assert(piece_blocks(ps@) =~= want);
    ps
}

} // verus!
