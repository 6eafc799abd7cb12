//! The guest's view of the file system: open handles, directory searches, and
//! the file system calls.

use vstd::prelude::*;

use std::collections::HashMap;

use vstd::utf8::encode_utf8;

use crate::call::{answer, answer_stores, faulted, follow, sysargs, sysargs_at, Reply};
use crate::cpu::{CpuState, CpuView};
use crate::gstr::{
    counted_text, narrow_write, read_unicode_string, unit_stores, unit_table, wide_write,
    write_astr, write_wstr,
};
use crate::host::{
    entry_views, EntryView, FindEntry, HostReply, HostRequest, Listing, OpenPlan, RequestView,
    Seek, Times,
};
use crate::mem::{
    at, ga, s32, s64, store32, store64, Fault, MemView, Store, Stored, VirtualMemory,
};
use crate::names::{is_before, text_before};
use crate::ntreg::{
    finish, STATUS_BUFFER_TOO_SMALL, STATUS_INVALID_HANDLE, STATUS_INVALID_PARAMETER,
    STATUS_OBJECT_NAME_NOT_FOUND, STATUS_SUCCESS,
};
use crate::path::{
    glob_matches, host_parts, join_path, joined, sandbox_parts, split_leaf, split_pattern,
    strip_nt_prefix, wildcard, without_device,
};
use crate::text::{chars_of, encode_utf16, lower_text, string_of, to_lower_chars, utf16};
use crate::util::{first_index, lemma_first_index, lemma_first_index_is, lemma_first_index_none};

verus! {

broadcast use vstd::std_specs::hash::group_hash_axioms;

/// The handle that is none, as 32-bit callers see it.
pub const INVALID_HANDLE_VALUE: u64 = 0xFFFF_FFFF;

pub const FILE_ATTRIBUTE_DIRECTORY: u32 = 0x10;

pub const FILE_ATTRIBUTE_NORMAL: u32 = 0x80;

pub const STATUS_END_OF_FILE: u64 = 0xC000_0011;

pub const STATUS_NO_MORE_FILES: u64 = 0x8000_0006;

// ---- how files are opened ---------------------------------------------------

/// How `CreateFile` opens a file: for writing where that is asked for or more
/// than an existing file may result.
pub open spec fn win32_plan(access: u64, disposition: u64) -> OpenPlan {
    OpenPlan {
        write: access & 0x4000_0000 != 0 || disposition != 3,
        create: disposition != 1 && disposition != 3 && disposition != 5,
        create_new: disposition == 1,
        truncate: disposition == 2 || disposition == 5,
    }
}

/// How `CreateFile` opens a file.
pub fn plan_win32(access: u64, disposition: u64) -> (p: OpenPlan)
    ensures
        p == win32_plan(access, disposition),
{
    OpenPlan {
        write: access & 0x4000_0000 != 0 || disposition != 3,
        create: disposition != 1 && disposition != 3 && disposition != 5,
        create_new: disposition == 1,
        truncate: disposition == 2 || disposition == 5,
    }
}

/// How `NtCreateFile` opens a file.
pub open spec fn nt_plan(access: u64, disposition: u32) -> OpenPlan {
    OpenPlan {
        write: access & 0x4000_0006 != 0 || disposition != 1,
        create: disposition != 1 && disposition != 2 && disposition != 4,
        create_new: disposition == 2,
        truncate: disposition == 0 || disposition == 4 || disposition == 5,
    }
}

/// How `NtCreateFile` opens a file.
fn plan_nt(access: u64, disposition: u32) -> (p: OpenPlan)
    ensures
        p == nt_plan(access, disposition),
{
    OpenPlan {
        write: access & 0x4000_0006 != 0 || disposition != 1,
        create: disposition != 1 && disposition != 2 && disposition != 4,
        create_new: disposition == 2,
        truncate: disposition == 0 || disposition == 4 || disposition == 5,
    }
}

/// What `NtCreateFile` reports to have done: superseded 0, opened 1, created 2,
/// overwritten 3.
pub open spec fn nt_done(disposition: u32, existed: bool) -> u64 {
    if disposition == 2 {
        2
    } else if disposition == 0 {
        0
    } else if disposition == 4 || disposition == 5 {
        if existed {
            3
        } else {
            2
        }
    } else if disposition == 3 && !existed {
        2
    } else {
        1
    }
}

/// Where `SetFilePointer` goes.
pub open spec fn pointer_seek(distance: i64, method: u64) -> Seek {
    if method == 0 {
        Seek::Start(
            if distance > 0 {
                distance as u64
            } else {
                0
            },
        )
    } else if method == 1 {
        Seek::Current(distance)
    } else {
        Seek::End(distance)
    }
}

/// Where `SetFilePointer` goes.
pub fn seek_for(distance: i64, method: u64) -> (s: Seek)
    ensures
        s == pointer_seek(distance, method),
{
    if method == 0 {
        if distance > 0 {
            Seek::Start(distance as u64)
        } else {
            Seek::Start(0)
        }
    } else if method == 1 {
        Seek::Current(distance)
    } else {
        Seek::End(distance)
    }
}

// ---- directory searches -----------------------------------------------------

/// A directory search in progress.
pub struct FindState {
    pub entries: Vec<FindEntry>,
    /// The entry that comes next.
    pub pos: usize,
    /// Whether names go out in code units.
    pub wide: bool,
}

/// A directory search as mathematics.
pub struct FindView {
    pub entries: Seq<EntryView>,
    pub pos: int,
    pub wide: bool,
}

impl View for FindState {
    type V = FindView;

    open spec fn view(&self) -> FindView {
        FindView { entries: entry_views(self.entries@), pos: self.pos as int, wide: self.wide }
    }
}

/// The condition of coming after an entry, whatever the case.
pub open spec fn comes_after(e: EntryView) -> spec_fn(EntryView) -> bool {
    |x: EntryView| text_before(lower_text(e.name), lower_text(x.name))
}

/// Where an entry goes in a sorted list: before the first one that comes after it.
pub open spec fn entry_slot(s: Seq<EntryView>, e: EntryView) -> int {
    match first_index(s, comes_after(e)) {
        Some(i) => i,
        None => s.len() as int,
    }
}

/// Some entries sorted by name, whatever the case; equal names stay in order.
pub open spec fn sorted_entries(s: Seq<EntryView>) -> Seq<EntryView>
    decreases s.len(),
{
    if s.len() == 0 {
        Seq::empty()
    } else {
        let t = sorted_entries(s.drop_last());
        t.insert(entry_slot(t, s.last()), s.last())
    }
}

/// The entries whose names match a wildcard.
pub open spec fn matching(s: Seq<EntryView>, leaf: Seq<char>) -> Seq<EntryView>
    decreases s.len(),
{
    if s.len() == 0 {
        Seq::empty()
    } else {
        let t = matching(s.drop_last(), leaf);
        if wildcard(leaf, s.last().name) {
            t.push(s.last())
        } else {
            t
        }
    }
}

/// The entry that stands for a directory itself or its parent.
pub open spec fn dot_entry(name: Seq<char>, t: Times) -> EntryView {
    EntryView { name, is_dir: true, size: 0, ctime: t.ctime, atime: t.atime, mtime: t.mtime }
}

/// The entry, where its name matches.
pub open spec fn if_matching(e: EntryView, leaf: Seq<char>) -> Seq<EntryView> {
    if wildcard(leaf, e.name) {
        seq![e]
    } else {
        Seq::empty()
    }
}

/// What a search finds in a directory: itself, its parent and its entries, as
/// far as they match, sorted by name.
pub open spec fn found(l: Listing, leaf: Seq<char>) -> Seq<EntryView> {
    sorted_entries(
        if_matching(dot_entry("."@, l.here), leaf) + if_matching(
            dot_entry(".."@, l.parent),
            leaf,
        ) + matching(entry_views(l.entries@), leaf),
    )
}

impl FindEntry {
    /// The same entry once more.
    pub fn copy(&self) -> (e: FindEntry)
        ensures
            e@ == self@,
    {
        FindEntry {
            name: self.name.clone(),
            is_dir: self.is_dir,
            size: self.size,
            ctime: self.ctime,
            atime: self.atime,
            mtime: self.mtime,
        }
    }
}

/// Add the entry to a sorted list.
fn insert_entry(v: &mut Vec<FindEntry>, e: FindEntry)
    ensures
        entry_views(final(v)@) == entry_views(old(v)@).insert(
            entry_slot(entry_views(old(v)@), e@),
            e@,
        ),
{
    let ghost s = entry_views(v@);
    let cs = chars_of(e.name.as_str());
    let key = to_lower_chars(&cs);
    let mut i: usize = 0;
    while i < v.len()
        invariant
            i <= v.len(),
            *v == *old(v),
            s == entry_views(v@),
            key@ == lower_text(e@.name),
            forall|j: int| 0 <= j < i ==> !comes_after(e@)(#[trigger] s[j]),
        decreases v.len() - i,
    {
        assert(s[i as int] == v@[i as int]@);
        let other = chars_of(v[i].name.as_str());
        if is_before(&key, &to_lower_chars(&other)) {
            proof {
                lemma_first_index_is(s, comes_after(e@), i as int);
            }
            let ghost ev = e@;
            v.insert(i, e);
            assert(entry_views(v@) =~= s.insert(i as int, ev));
            return;
        }
        i = i + 1;
    }
    proof {
        lemma_first_index_none(s, comes_after(e@));
    }
    let ghost ev = e@;
    v.push(e);
    assert(entry_views(v@) =~= s.insert(s.len() as int, ev));
}

/// Sort entries by name.
fn sort_entries(v: &Vec<FindEntry>) -> (r: Vec<FindEntry>)
    ensures
        entry_views(r@) == sorted_entries(entry_views(v@)),
{
    let ghost s = entry_views(v@);
    let mut out: Vec<FindEntry> = Vec::new();
    let mut i: usize = 0;
    assert(s.take(0) =~= Seq::empty());
    assert(entry_views(out@) =~= Seq::empty());
    while i < v.len()
        invariant
            i <= v.len(),
            s == entry_views(v@),
            entry_views(out@) == sorted_entries(s.take(i as int)),
        decreases v.len() - i,
    {
        proof {
            assert(s.take(i + 1).drop_last() =~= s.take(i as int));
            assert(s.take(i + 1).last() == v@[i as int]@);
        }
        insert_entry(&mut out, v[i].copy());
        i = i + 1;
    }
    assert(s.take(i as int) =~= s);
    out
}

/// Add the entries that match a wildcard.
fn add_matching(out: &mut Vec<FindEntry>, v: &Vec<FindEntry>, leaf: &str)
    ensures
        entry_views(final(out)@) == entry_views(old(out)@) + matching(entry_views(v@), leaf@),
{
    let ghost s = entry_views(v@);
    let ghost before = entry_views(out@);
    let mut i: usize = 0;
    assert(s.take(0) =~= Seq::empty());
    assert(before + Seq::<EntryView>::empty() =~= before);
    while i < v.len()
        invariant
            i <= v.len(),
            s == entry_views(v@),
            entry_views(out@) == before + matching(s.take(i as int), leaf@),
        decreases v.len() - i,
    {
        proof {
            assert(s.take(i + 1).drop_last() =~= s.take(i as int));
            assert(s.take(i + 1).last() == v@[i as int]@);
        }
        if glob_matches(leaf, v[i].name.as_str()) {
            let ghost prev = entry_views(out@);
            let e = v[i].copy();
            let ghost ev = e@;
            out.push(e);
            proof {
                assert(entry_views(out@) =~= prev.push(ev));
                assert(prev.push(ev) =~= before + matching(s.take(i as int), leaf@).push(ev));
            }
        }
        i = i + 1;
    }
    assert(s.take(i as int) =~= s);
}

/// Add the entry of a directory itself or of its parent, where it matches.
fn add_dot(out: &mut Vec<FindEntry>, name: &str, t: Times, leaf: &str)
    ensures
        entry_views(final(out)@) == entry_views(old(out)@) + if_matching(
            dot_entry(name@, t),
            leaf@,
        ),
{
    let ghost before = entry_views(out@);
    if glob_matches(leaf, name) {
        let cs = chars_of(name);
        let e = FindEntry {
            name: string_of(&cs),
            is_dir: true,
            size: 0,
            ctime: t.ctime,
            atime: t.atime,
            mtime: t.mtime,
        };
        let ghost ev = e@;
        out.push(e);
        assert(entry_views(out@) =~= before + seq![ev]);
    } else {
        assert(entry_views(out@) =~= before + Seq::<EntryView>::empty());
    }
}

/// What a search finds in a directory.
pub fn find_entries(l: &Listing, leaf: &str) -> (r: Vec<FindEntry>)
    ensures
        entry_views(r@) == found(*l, leaf@),
{
    let mut all: Vec<FindEntry> = Vec::new();
    assert(entry_views(all@) =~= Seq::empty());
    add_dot(&mut all, ".", l.here, leaf);
    add_dot(&mut all, "..", l.parent, leaf);
    add_matching(&mut all, &l.entries, leaf);
    proof {
        let a = if_matching(dot_entry("."@, l.here), leaf@);
        assert(Seq::<EntryView>::empty() + a =~= a);
    }
    sort_entries(&all)
}

/// What the listing of a directory by `NtQueryDirectoryFile` holds.
pub open spec fn dir_entries(l: Listing, pattern: Seq<char>) -> Seq<EntryView> {
    sorted_entries(matching(entry_views(l.entries@), pattern))
}

/// What the listing of a directory by `NtQueryDirectoryFile` holds.
fn collect_dir_entries(l: &Listing, pattern: &str) -> (r: Vec<FindEntry>)
    ensures
        entry_views(r@) == dir_entries(*l, pattern@),
{
    let mut all: Vec<FindEntry> = Vec::new();
    assert(entry_views(all@) =~= Seq::empty());
    add_matching(&mut all, &l.entries, pattern);
    proof {
        let a = matching(entry_views(l.entries@), pattern@);
        assert(Seq::<EntryView>::empty() + a =~= a);
    }
    sort_entries(&all)
}

/// The attributes of an entry.
pub open spec fn entry_attributes(is_dir: bool) -> u32 {
    if is_dir {
        FILE_ATTRIBUTE_DIRECTORY
    } else {
        FILE_ATTRIBUTE_NORMAL
    }
}

/// The high half of a number.
pub open spec fn high32(v: u64) -> u32 {
    (v / 0x1_0000_0000) as u32
}

/// The fixed fields of a find record.
pub open spec fn find_table(p: u64, e: EntryView) -> Seq<Store> {
    seq![
        s32(p, entry_attributes(e.is_dir)),
        s32(ga(p, 4), e.ctime as u32),
        s32(ga(p, 8), high32(e.ctime)),
        s32(ga(p, 12), e.atime as u32),
        s32(ga(p, 16), high32(e.atime)),
        s32(ga(p, 20), e.mtime as u32),
        s32(ga(p, 24), high32(e.mtime)),
        s32(ga(p, 28), high32(e.size)),
        s32(ga(p, 32), e.size as u32),
    ]
}

/// `n` zero bytes.
pub open spec fn zeros(n: nat) -> Seq<u8> {
    Seq::new(n, |i: int| 0u8)
}

/// `n` zero bytes.
pub fn zero_bytes(n: usize) -> (r: Vec<u8>)
    ensures
        r@ == zeros(n as nat),
{
    let mut out: Vec<u8> = Vec::new();
    let mut i: usize = 0;
    assert(out@ =~= zeros(0));
    while i < n
        invariant
            i <= n,
            out@ == zeros(i as nat),
        decreases n - i,
    {
        out.push(0);
        i = i + 1;
        assert(out@ =~= zeros(i as nat));
    }
    out
}

/// A find record of 592 bytes with a name in code units, or of 318 bytes with one
/// in bytes.
pub open spec fn find_data(m: MemView, p: u64, e: EntryView, wide: bool) -> Reply {
    follow(
        m.write(
            p,
            zeros(
                if wide {
                    592
                } else {
                    318
                },
            ),
        ),
        |k: MemView|
            follow(
                k.store_all(find_table(p, e)),
                |j: MemView|
                    if wide {
                        wide_write(j, ga(p, 44), utf16(e.name), 260)
                    } else {
                        narrow_write(j, ga(p, 44), encode_utf8(e.name), 260)
                    },
            ),
    )
}

/// Write a find record.
fn write_find_data(mem: &mut VirtualMemory, p: u64, e: &FindEntry, wide: bool) -> (r: Result<
    u64,
    Fault,
>)
    ensures
        final(mem)@ == find_data(old(mem)@, p, e@, wide).mem,
        r == find_data(old(mem)@, p, e@, wide).r,
{
    let z = zero_bytes(
        if wide {
            592
        } else {
            318
        },
    );
    match mem.write(p, &z) {
        Ok(_) => {},
        Err(f) => {
            return Err(f);
        },
    }
    let attrs: u32 = if e.is_dir {
        FILE_ATTRIBUTE_DIRECTORY
    } else {
        FILE_ATTRIBUTE_NORMAL
    };
    let t: Vec<Store> = vec![
        store32(p, attrs),
        store32(at(p, 4), e.ctime as u32),
        store32(at(p, 8), (e.ctime / 0x1_0000_0000) as u32),
        store32(at(p, 12), e.atime as u32),
        store32(at(p, 16), (e.atime / 0x1_0000_0000) as u32),
        store32(at(p, 20), e.mtime as u32),
        store32(at(p, 24), (e.mtime / 0x1_0000_0000) as u32),
        store32(at(p, 28), (e.size / 0x1_0000_0000) as u32),
        store32(at(p, 32), e.size as u32),
    ];
    assert(t@ =~= find_table(p, e@));
    match mem.store_all(&t) {
        Ok(_) => {},
        Err(f) => {
            return Err(f);
        },
    }
    if wide {
        write_wstr(mem, at(p, 44), e.name.as_str(), 260)
    } else {
        write_astr(mem, at(p, 44), e.name.as_str(), 260)
    }
}

// ---- handles ----------------------------------------------------------------

/// The open files and searches of a process.
pub struct FileTable {
    /// The open files.
    pub files: HashMap<u64, ()>,
    /// The guest path of each open directory.
    pub dirs: HashMap<u64, String>,
    pub finds: HashMap<u64, FindState>,
    /// The number of the last temporary file.
    pub temps: u32,
}

/// The open files and searches as mathematics.
#[verifier::ext_equal]
pub struct FsView {
    pub files: Map<u64, ()>,
    pub dirs: Map<u64, Seq<char>>,
    pub finds: Map<u64, FindView>,
    pub temps: u32,
}

/// The views of directory paths.
pub open spec fn dir_views(m: Map<u64, String>) -> Map<u64, Seq<char>> {
    Map::new(|h: u64| m.contains_key(h), |h: u64| m[h]@)
}

/// The views of searches.
pub open spec fn find_views(m: Map<u64, FindState>) -> Map<u64, FindView> {
    Map::new(|h: u64| m.contains_key(h), |h: u64| m[h]@)
}

impl View for FileTable {
    type V = FsView;

    open spec fn view(&self) -> FsView {
        FsView {
            files: self.files@,
            dirs: dir_views(self.dirs@),
            finds: find_views(self.finds@),
            temps: self.temps,
        }
    }
}

/// What a file call leads to: the files, the next free handle, the last error,
/// and the answer.
pub struct FsOut {
    pub fs: FsView,
    pub next: u64,
    pub error: u32,
    pub reply: Reply,
}

impl FsView {
    /// Whether a handle is an open file.
    pub open spec fn is_file(self, h: u64) -> bool {
        self.files.contains_key(h)
    }

    /// With one more open file.
    pub open spec fn with_file(self, h: u64) -> FsView {
        FsView { files: self.files.insert(h, ()), ..self }
    }

    /// Without a handle.
    pub open spec fn without(self, h: u64) -> FsView {
        FsView {
            files: self.files.remove(h),
            dirs: self.dirs.remove(h),
            finds: self.finds.remove(h),
            ..self
        }
    }

    /// With the search of a handle.
    pub open spec fn with_find(self, h: u64, f: FindView) -> FsView {
        FsView { finds: self.finds.insert(h, f), ..self }
    }

    /// With a search moved on by one entry.
    pub open spec fn stepped(self, h: u64) -> FsView {
        let f = self.finds[h];
        self.with_find(h, FindView { pos: f.pos + 1, ..f })
    }
}

/// A search that starts: its first entry goes out, and the next handle stands
/// for the rest. Without an entry, or without a sandbox, it fails.
pub open spec fn find_first_out(
    fs: FsView,
    next: u64,
    error: u32,
    m: MemView,
    entries: Option<Seq<EntryView>>,
    p: u64,
    wide: bool,
) -> FsOut {
    match entries {
        None => FsOut { fs, next, error: 2, reply: answer(m, INVALID_HANDLE_VALUE) },
        Some(es) => if es.len() == 0 {
            FsOut { fs, next, error: 2, reply: answer(m, INVALID_HANDLE_VALUE) }
        } else {
            let w = find_data(m, p, es[0], wide);
            match w.r {
                Err(f) => FsOut { fs, next, error, reply: w },
                Ok(_) => FsOut {
                    fs: fs.with_find(next, FindView { entries: es, pos: 1, wide }),
                    next: (next + 4) as u64,
                    error,
                    reply: answer(w.mem, next),
                },
            }
        },
    }
}

/// A search that goes on: its next entry goes out, or there is none left.
pub open spec fn find_next_out(
    fs: FsView,
    next: u64,
    error: u32,
    m: MemView,
    h: u64,
    p: u64,
) -> FsOut {
    if fs.finds.contains_key(h) && fs.finds[h].pos < fs.finds[h].entries.len() {
        let f = fs.finds[h];
        let w = find_data(m, p, f.entries[f.pos], f.wide);
        FsOut {
            fs: fs.stepped(h),
            next,
            error,
            reply: match w.r {
                Err(_) => w,
                Ok(_) => answer(w.mem, 1),
            },
        }
    } else {
        FsOut { fs, next, error: 18, reply: answer(m, 0) }
    }
}

impl FileTable {
    /// No file is open.
    pub fn new() -> (t: FileTable)
        ensures
            t@ == (FsView {
                files: Map::empty(),
                dirs: Map::empty(),
                finds: Map::empty(),
                temps: 0,
            }),
    {
        let t = FileTable {
            files: HashMap::new(),
            dirs: HashMap::new(),
            finds: HashMap::new(),
            temps: 0,
        };
        assert(t@.dirs =~= Map::empty());
        assert(t@.finds =~= Map::empty());
        t
    }

    /// Whether a handle is an open file.
    pub fn is_file_handle(&self, h: u64) -> (r: bool)
        ensures
            r == self@.is_file(h),
    {
        self.files.contains_key(&h)
    }

    /// Give an opened file the handle `h`.
    pub fn add_file(&mut self, h: u64)
        ensures
            final(self)@ == old(self)@.with_file(h),
    {
        let ghost v = self@;
        let _prev = self.files.insert(h, ());
        assert(self@ =~= v.with_file(h));
    }

    /// Forget a handle; whether it was an open file.
    pub fn close(&mut self, h: u64) -> (r: bool)
        ensures
            r == old(self)@.is_file(h),
            final(self)@ == old(self)@.without(h),
    {
        let ghost v = self@;
        let _dir = self.dirs.remove(&h);
        let _find = self.finds.remove(&h);
        let was: bool = self.files.contains_key(&h);
        let _file = self.files.remove(&h);
        assert(self@ =~= v.without(h));
        was
    }

    /// `FindClose`.
    pub fn find_close(&mut self, h: u64) -> (r: u64)
        ensures
            r == 1,
            final(self)@ == (FsView { finds: old(self)@.finds.remove(h), ..old(self)@ }),
    {
        let ghost v = self@;
        let _find = self.finds.remove(&h);
        assert(self@ =~= FsView { finds: v.finds.remove(h), ..v });
        1
    }

    /// What `FindFirstFile` asks the host for: the directory of its pattern.
    pub fn find_request(pattern: &str, sandbox: bool) -> (r: HostRequest)
        ensures
            r@ == (if sandbox {
                RequestView::List { path: sandbox_parts(split_leaf(pattern@).0) }
            } else {
                RequestView::Nothing
            }),
    {
        if !sandbox {
            return HostRequest::Nothing;
        }
        let (dir, _leaf) = split_pattern(pattern);
        HostRequest::List { path: host_parts(dir.as_str()) }
    }

    /// `FindFirstFile`, with what the directory holds.
    pub fn find_first_file(
        &mut self,
        next: &mut u64,
        error: &mut u32,
        mem: &mut VirtualMemory,
        pattern: &str,
        listing: Option<&Listing>,
        p: u64,
        wide: bool,
    ) -> (r: Result<u64, Fault>)
        requires
            *old(next) <= u64::MAX - 4,
        ensures
            ({
                let o = find_first_out(
                    old(self)@,
                    *old(next),
                    *old(error),
                    old(mem)@,
                    match listing {
                        Some(l) => Some(found(*l, split_leaf(pattern@).1)),
                        None => None,
                    },
                    p,
                    wide,
                );
                &&& final(self)@ == o.fs
                &&& *final(next) == o.next
                &&& *final(error) == o.error
                &&& final(mem)@ == o.reply.mem
                &&& r == o.reply.r
            }),
    {
        let (_dir, leaf) = split_pattern(pattern);
        let entries = match listing {
            Some(l) => find_entries(l, leaf.as_str()),
            None => {
                *error = 2;
                return Ok(INVALID_HANDLE_VALUE);
            },
        };
        if entries.len() == 0 {
            *error = 2;
            return Ok(INVALID_HANDLE_VALUE);
        }
        match write_find_data(mem, p, &entries[0], wide) {
            Ok(_) => {},
            Err(f) => {
                return Err(f);
            },
        }
        let ghost v = self@;
        let h: u64 = *next;
        *next = h + 4;
        let state = FindState { entries, pos: 1, wide };
        let ghost sv = state@;
        let _prev = self.finds.insert(h, state);
        assert(self@ =~= v.with_find(h, sv));
        Ok(h)
    }

    /// `FindNextFile`.
    pub fn find_next_file(
        &mut self,
        next: &mut u64,
        error: &mut u32,
        mem: &mut VirtualMemory,
        h: u64,
        p: u64,
    ) -> (r: Result<u64, Fault>)
        ensures
            ({
                let o = find_next_out(
                    old(self)@,
                    *old(next),
                    *old(error),
                    old(mem)@,
                    h,
                    p,
                );
                &&& final(self)@ == o.fs
                &&& *final(next) == o.next
                &&& *final(error) == o.error
                &&& final(mem)@ == o.reply.mem
                &&& r == o.reply.r
            }),
    {
        let ghost v = self@;
        let more: bool = match self.finds.get(&h) {
            Some(f) => f.pos < f.entries.len(),
            None => false,
        };
        if !more {
            *error = 18;
            return Ok(0);
        }
        match self.take_entry(h) {
            Some((e, wide)) => match write_find_data(mem, p, &e, wide) {
                Ok(_) => Ok(1),
                Err(f) => Err(f),
            },
            None => Ok(0),
        }
    }

    /// The next entry of a search, which moves on.
    fn take_entry(&mut self, h: u64) -> (r: Option<(FindEntry, bool)>)
        ensures
            ({
                let o = old(self)@;
                let more = o.finds.contains_key(h) && o.finds[h].pos < o.finds[h].entries.len();
                match r {
                    Some((e, wide)) => more && e@ == o.finds[h].entries[o.finds[h].pos] && wide
                        == o.finds[h].wide && final(self)@ == o.stepped(h),
                    None => !more && final(self)@ == o,
                }
            }),
    {
        let ghost v = self@;
        let ghost m = self.finds@;
        match self.finds.remove(&h) {
            Some(mut f) => {
                let ghost fv = f@;
                if f.pos < f.entries.len() {
                    let e = f.entries[f.pos].copy();
                    let wide: bool = f.wide;
                    f.pos = f.pos + 1;
                    let ghost gv = f@;
                    let _none = self.finds.insert(h, f);
                    assert(self@.finds =~= v.finds.insert(h, gv));
                    assert(self@ =~= v.stepped(h));
                    Some((e, wide))
                } else {
                    let _none = self.finds.insert(h, f);
                    assert(self@.finds =~= v.finds);
                    assert(self@ =~= v);
                    None
                }
            },
            None => {
                assert(self.finds@ =~= m);
                None
            },
        }
    }

    /// The number and the name of a temporary file.
    pub fn temp_file_name(&mut self, dir: &str, prefix: &str, unique: u32) -> (r: (String, u32))
        requires
            old(self).temps < u32::MAX,
        ensures
            r.1 == (if unique != 0 {
                unique
            } else {
                (old(self)@.temps + 1) as u32
            }),
            r.0@ == crate::path::temp_name(dir@, prefix@, r.1),
            final(self)@ == (if unique != 0 {
                old(self)@
            } else {
                FsView { temps: r.1, ..old(self)@ }
            }),
    {
        let u: u32 = if unique != 0 {
            unique
        } else {
            self.temps = self.temps + 1;
            self.temps
        };
        (crate::path::make_temp_name(dir, prefix, u), u)
    }
}

// ---- system calls -----------------------------------------------------------

/// The stores of an I/O status block.
pub open spec fn iosb_table(p: u64, status: u64, information: u64) -> Seq<Store> {
    if p == 0 {
        Seq::empty()
    } else {
        seq![s32(p, status as u32), s32(ga(p, 4), 0), s64(ga(p, 8), information)]
    }
}

/// Add the stores of an I/O status block.
fn push_iosb(t: &mut Vec<Store>, p: u64, status: u64, information: u64)
    ensures
        final(t)@ == old(t)@ + iosb_table(p, status, information),
{
    let ghost before = t@;
    if p != 0 {
        t.push(store32(p, status as u32));
        t.push(store32(at(p, 4), 0));
        t.push(store64(at(p, 8), information));
    }
    assert(t@ =~= before + iosb_table(p, status, information));
}

/// A file call that changed no file.
pub open spec fn fs_kept(fs: FsView, next: u64, error: u32, reply: Reply) -> FsOut {
    FsOut { fs, next, error, reply }
}

/// The guest path that object attributes name: below the directory of their root
/// handle where that is an open directory.
pub open spec fn object_name(fs: FsView, m: MemView, attr: u64) -> Option<Seq<char>> {
    if attr == 0 {
        None
    } else {
        match (m.r64(ga(attr, 8)), m.r64(ga(attr, 0x10))) {
            (Ok(root), Ok(p)) => match counted_text(m, p) {
                None => None,
                Some(text) => {
                    let name = without_device(text);
                    if root != 0 && root != u64::MAX && fs.dirs.contains_key(root) {
                        Some(joined(fs.dirs[root], name))
                    } else {
                        Some(name)
                    }
                },
            },
            _ => None,
        }
    }
}

/// What `NtCreateFile` asks the host for.
pub open spec fn nt_create_file_asks(
    fs: FsView,
    sandbox: bool,
    rsp: u64,
    c: CpuView,
    m: MemView,
) -> RequestView {
    match sysargs_at(rsp, c, m, seq![0, 1, 2, 3, 7]) {
        Err(_) => RequestView::Nothing,
        Ok(a) => match object_name(fs, m, a[2]) {
            None => RequestView::Nothing,
            Some(name) => if a[0] != 0 && sandbox {
                RequestView::Open { path: sandbox_parts(name), plan: nt_plan(a[1], a[4] as u32) }
            } else {
                RequestView::Nothing
            },
        },
    }
}

/// What `NtCreateFile` leads to, given how the host opened the file.
pub open spec fn nt_create_file_out(
    fs: FsView,
    next: u64,
    error: u32,
    sandbox: bool,
    rsp: u64,
    c: CpuView,
    m: MemView,
    host: HostReply,
) -> FsOut {
    match sysargs_at(rsp, c, m, seq![0, 1, 2, 3, 7]) {
        Err(f) => fs_kept(fs, next, error, faulted(m, f)),
        Ok(a) => match object_name(fs, m, a[2]) {
            None => fs_kept(fs, next, error, answer(m, STATUS_INVALID_PARAMETER)),
            Some(name) => if a[0] == 0 {
                fs_kept(fs, next, error, answer(m, STATUS_INVALID_PARAMETER))
            } else {
                match host {
                    HostReply::Opened { existed, is_dir } => if sandbox {
                        let opened = fs.with_file(next);
                        FsOut {
                            fs: if is_dir {
                                FsView { dirs: opened.dirs.insert(next, name), ..opened }
                            } else {
                                opened
                            },
                            next: (next + 4) as u64,
                            error,
                            reply: answer_stores(
                                m,
                                seq![s64(a[0], next)] + iosb_table(
                                    a[3],
                                    STATUS_SUCCESS,
                                    nt_done(a[4] as u32, existed),
                                ),
                                STATUS_SUCCESS,
                            ),
                        }
                    } else {
                        fs_kept(fs, next, error, answer(m, STATUS_OBJECT_NAME_NOT_FOUND))
                    },
                    _ => fs_kept(fs, next, error, answer(m, STATUS_OBJECT_NAME_NOT_FOUND)),
                }
            },
        },
    }
}

/// The position that a read takes from its offset argument: none, or a number
/// that is not negative.
pub open spec fn read_seek(m: MemView, p: u64) -> Result<Seek, Fault> {
    if p == 0 {
        Ok(Seek::Keep)
    } else {
        match m.r64(p) {
            Err(f) => Err(f),
            Ok(off) => Ok(
                if off < 0x8000_0000_0000_0000 {
                    Seek::Start(off)
                } else {
                    Seek::Keep
                },
            ),
        }
    }
}

/// The position that a write takes from its offset argument: all ones stand for
/// the end of the file.
pub open spec fn write_seek(m: MemView, p: u64) -> Result<Seek, Fault> {
    if p == 0 {
        Ok(Seek::Keep)
    } else {
        match m.r64(p) {
            Err(f) => Err(f),
            Ok(off) => Ok(
                if off == u64::MAX {
                    Seek::End(0)
                } else if off < 0x8000_0000_0000_0000 {
                    Seek::Start(off)
                } else {
                    Seek::Keep
                },
            ),
        }
    }
}

/// The position that a read takes from its offset argument.
fn seek_of_read(mem: &VirtualMemory, p: u64) -> (r: Result<Seek, Fault>)
    ensures
        r == read_seek(mem@, p),
{
    if p == 0 {
        return Ok(Seek::Keep);
    }
    match mem.read_u64(p) {
        Err(f) => Err(f),
        Ok(off) => if off < 0x8000_0000_0000_0000 {
            Ok(Seek::Start(off))
        } else {
            Ok(Seek::Keep)
        },
    }
}

/// The position that a write takes from its offset argument.
fn seek_of_write(mem: &VirtualMemory, p: u64) -> (r: Result<Seek, Fault>)
    ensures
        r == write_seek(mem@, p),
{
    if p == 0 {
        return Ok(Seek::Keep);
    }
    match mem.read_u64(p) {
        Err(f) => Err(f),
        Ok(off) => if off == u64::MAX {
            Ok(Seek::End(0))
        } else if off < 0x8000_0000_0000_0000 {
            Ok(Seek::Start(off))
        } else {
            Ok(Seek::Keep)
        },
    }
}

/// What `NtReadFile` asks the host for.
pub open spec fn nt_read_file_asks(fs: FsView, rsp: u64, c: CpuView, m: MemView) -> RequestView {
    match sysargs_at(rsp, c, m, seq![0, 4, 5, 6, 7]) {
        Err(_) => RequestView::Nothing,
        Ok(a) => match read_seek(m, a[4]) {
            Err(_) => RequestView::Nothing,
            Ok(seek) => if fs.is_file(a[0]) {
                RequestView::Read { handle: a[0], seek, len: a[3] }
            } else {
                RequestView::Nothing
            },
        },
    }
}

/// The bytes that a read of `len` takes from what the host read.
pub open spec fn taken(d: Seq<u8>, len: u64) -> Seq<u8> {
    if d.len() > len {
        d.take(len as int)
    } else {
        d
    }
}

/// What `NtReadFile` leads to, given what the host read. No byte where some were
/// asked for is the end of the file.
pub open spec fn nt_read_file_reply(
    fs: FsView,
    rsp: u64,
    c: CpuView,
    m: MemView,
    host: HostReply,
) -> Reply {
    match sysargs_at(rsp, c, m, seq![0, 4, 5, 6, 7]) {
        Err(f) => faulted(m, f),
        Ok(a) => if !fs.is_file(a[0]) {
            answer(m, STATUS_INVALID_HANDLE)
        } else {
            match read_seek(m, a[4]) {
                Err(f) => faulted(m, f),
                Ok(_) => {
                    let d = taken(host.spec_data(), a[3]);
                    if d.len() == 0 && a[3] != 0 {
                        answer_stores(
                            m,
                            iosb_table(a[1], STATUS_END_OF_FILE, 0),
                            STATUS_END_OF_FILE,
                        )
                    } else {
                        follow(
                            m.write(a[2], d),
                            |k: MemView|
                                answer_stores(
                                    k,
                                    iosb_table(a[1], STATUS_SUCCESS, d.len() as u64),
                                    STATUS_SUCCESS,
                                ),
                        )
                    }
                },
            }
        },
    }
}

/// What `NtWriteFile` asks the host for.
pub open spec fn nt_write_file_asks(fs: FsView, rsp: u64, c: CpuView, m: MemView) -> RequestView {
    match sysargs_at(rsp, c, m, seq![0, 4, 5, 6, 7]) {
        Err(_) => RequestView::Nothing,
        Ok(a) => match write_seek(m, a[4]) {
            Err(_) => RequestView::Nothing,
            Ok(seek) => match m.read(a[2], a[3] as nat) {
                Err(_) => RequestView::Nothing,
                Ok(data) => if fs.is_file(a[0]) {
                    RequestView::Write { handle: a[0], seek, data }
                } else {
                    RequestView::Nothing
                },
            },
        },
    }
}

/// What `NtWriteFile` leads to, given how much the host wrote.
pub open spec fn nt_write_file_reply(
    fs: FsView,
    rsp: u64,
    c: CpuView,
    m: MemView,
    host: HostReply,
) -> Reply {
    match sysargs_at(rsp, c, m, seq![0, 4, 5, 6, 7]) {
        Err(f) => faulted(m, f),
        Ok(a) => if !fs.is_file(a[0]) {
            answer(m, STATUS_INVALID_HANDLE)
        } else {
            match write_seek(m, a[4]) {
                Err(f) => faulted(m, f),
                Ok(_) => match m.read(a[2], a[3] as nat) {
                    Err(f) => faulted(m, f),
                    Ok(_) => answer_stores(
                        m,
                        iosb_table(a[1], STATUS_SUCCESS, host.spec_count()),
                        STATUS_SUCCESS,
                    ),
                },
            }
        },
    }
}

/// What `NtQueryInformationFile` leads to, given the size and the position of the
/// file: the standard record, the size, or the position.
pub open spec fn nt_query_file_reply(
    fs: FsView,
    rsp: u64,
    c: CpuView,
    m: MemView,
    host: HostReply,
) -> Reply {
    match sysargs_at(rsp, c, m, seq![0, 1, 2, 3, 4]) {
        Err(f) => faulted(m, f),
        Ok(a) => {
            let class = a[4] as u32;
            let (size, pos) = host.spec_stat();
            if !fs.is_file(a[0]) {
                answer(m, STATUS_INVALID_HANDLE)
            } else if class == 5 {
                if a[3] < 0x18 {
                    answer(m, STATUS_BUFFER_TOO_SMALL)
                } else {
                    answer_stores(
                        m,
                        seq![
                            s64(a[2], size),
                            s64(ga(a[2], 8), size),
                            s32(ga(a[2], 0x10), 1),
                            s32(ga(a[2], 0x14), 0),
                        ] + iosb_table(a[1], STATUS_SUCCESS, 0x18),
                        STATUS_SUCCESS,
                    )
                }
            } else if class == 20 || class == 14 {
                if a[3] < 8 {
                    answer(m, STATUS_BUFFER_TOO_SMALL)
                } else {
                    answer_stores(
                        m,
                        seq![
                            s64(
                                a[2],
                                if class == 20 {
                                    size
                                } else {
                                    pos
                                },
                            ),
                        ] + iosb_table(a[1], STATUS_SUCCESS, 8),
                        STATUS_SUCCESS,
                    )
                }
            } else {
                answer_stores(
                    m,
                    iosb_table(a[1], STATUS_INVALID_PARAMETER, 0),
                    STATUS_INVALID_PARAMETER,
                )
            }
        },
    }
}

/// What `NtQueryVolumeInformationFile` leads to: the size of a nominal volume, or
/// its kind of device.
pub open spec fn nt_query_volume_reply(fs: FsView, rsp: u64, c: CpuView, m: MemView) -> Reply {
    match sysargs_at(rsp, c, m, seq![0, 1, 2, 3, 4]) {
        Err(f) => faulted(m, f),
        Ok(a) => {
            let class = a[4] as u32;
            if !fs.is_file(a[0]) {
                answer(m, STATUS_INVALID_HANDLE)
            } else if class == 3 {
                if a[3] < 0x18 {
                    answer(m, STATUS_BUFFER_TOO_SMALL)
                } else {
                    answer_stores(
                        m,
                        seq![
                            s64(a[2], 0x0010_0000),
                            s64(ga(a[2], 8), 0x0008_0000),
                            s32(ga(a[2], 0x10), 8),
                            s32(ga(a[2], 0x14), 512),
                        ] + iosb_table(a[1], STATUS_SUCCESS, 0x18),
                        STATUS_SUCCESS,
                    )
                }
            } else if class == 4 {
                if a[3] < 8 {
                    answer(m, STATUS_BUFFER_TOO_SMALL)
                } else {
                    answer_stores(
                        m,
                        seq![s32(a[2], 7), s32(ga(a[2], 4), 0)] + iosb_table(
                            a[1],
                            STATUS_SUCCESS,
                            8,
                        ),
                        STATUS_SUCCESS,
                    )
                }
            } else {
                answer_stores(
                    m,
                    iosb_table(a[1], STATUS_INVALID_PARAMETER, 0),
                    STATUS_INVALID_PARAMETER,
                )
            }
        },
    }
}

/// The pattern of a directory query: `*` where none is given.
pub open spec fn query_pattern(m: MemView, p: u64) -> Seq<char> {
    match counted_text(m, p) {
        Some(s) => if s.len() == 0 {
            "*"@
        } else {
            s
        },
        None => "*"@,
    }
}

/// Whether a directory query starts over.
pub open spec fn rescans(fs: FsView, a: Seq<u64>) -> bool {
    a[5] != 0 || !fs.finds.contains_key(a[0])
}

/// What `NtQueryDirectoryFile` asks the host for.
pub open spec fn nt_query_dir_asks(
    fs: FsView,
    sandbox: bool,
    rsp: u64,
    c: CpuView,
    m: MemView,
) -> RequestView {
    match sysargs_at(rsp, c, m, seq![0, 4, 5, 6, 9, 10]) {
        Err(_) => RequestView::Nothing,
        Ok(a) => if fs.is_file(a[0]) && rescans(fs, a) && fs.dirs.contains_key(a[0]) && sandbox {
            RequestView::List { path: sandbox_parts(fs.dirs[a[0]]) }
        } else {
            RequestView::Nothing
        },
    }
}

/// The record of a directory entry: 0x60 bytes and the name.
pub open spec fn both_dir_record(m: MemView, p: u64, e: EntryView) -> Stored {
    let units = utf16(e.name);
    let t = seq![
        s32(p, 0),
        s64(ga(p, 0x08), e.ctime),
        s64(ga(p, 0x10), e.atime),
        s64(ga(p, 0x18), e.mtime),
        s64(ga(p, 0x20), e.mtime),
        s64(ga(p, 0x28), e.size),
        s64(ga(p, 0x30), e.size),
        s32(ga(p, 0x38), entry_attributes(e.is_dir)),
        s32(ga(p, 0x3c), (2 * units.len()) as u32),
    ] + unit_table(ga(p, 0x60), units);
    let z = m.write(p, zeros(0x60));
    if z.fault is Some {
        z
    } else {
        z.mem.store_all(t)
    }
}

/// What the search of a directory handle looks like when its next entry is
/// looked for; none where the handle is no directory.
pub open spec fn query_find(fs: FsView, a: Seq<u64>, m: MemView, host: HostReply) -> Option<FindView> {
    if !rescans(fs, a) {
        Some(fs.finds[a[0]])
    } else if fs.dirs.contains_key(a[0]) {
        Some(
            FindView {
                entries: match host {
                    HostReply::Listing(l) => dir_entries(l, query_pattern(m, a[4])),
                    _ => Seq::empty(),
                },
                pos: 0,
                wide: true,
            },
        )
    } else {
        None
    }
}

/// What `NtQueryDirectoryFile` leads to, given what the directory holds: one
/// entry for each call, until none is left.
pub open spec fn nt_query_dir_out(
    fs: FsView,
    next: u64,
    error: u32,
    rsp: u64,
    c: CpuView,
    m: MemView,
    host: HostReply,
) -> FsOut {
    match sysargs_at(rsp, c, m, seq![0, 4, 5, 6, 9, 10]) {
        Err(f) => fs_kept(fs, next, error, faulted(m, f)),
        Ok(a) => if !fs.is_file(a[0]) {
            fs_kept(fs, next, error, answer(m, STATUS_INVALID_HANDLE))
        } else {
            match query_find(fs, a, m, host) {
                None => fs_kept(fs, next, error, answer(m, STATUS_INVALID_PARAMETER)),
                Some(f) => {
                    let scanned = fs.with_find(a[0], f);
                    if f.pos >= f.entries.len() {
                        fs_kept(
                            scanned,
                            next,
                            error,
                            answer_stores(
                                m,
                                iosb_table(a[1], STATUS_NO_MORE_FILES, 0),
                                STATUS_NO_MORE_FILES,
                            ),
                        )
                    } else {
                        let e = f.entries[f.pos];
                        let need = 0x60 + 2 * utf16(e.name).len();
                        fs_kept(
                            scanned.stepped(a[0]),
                            next,
                            error,
                            if a[3] < need {
                                answer_stores(
                                    m,
                                    iosb_table(a[1], STATUS_BUFFER_TOO_SMALL, 0),
                                    STATUS_BUFFER_TOO_SMALL,
                                )
                            } else {
                                follow(
                                    both_dir_record(m, a[2], e),
                                    |k: MemView|
                                        answer_stores(
                                            k,
                                            iosb_table(a[1], STATUS_SUCCESS, need as u64),
                                            STATUS_SUCCESS,
                                        ),
                                )
                            },
                        )
                    }
                },
            }
        },
    }
}

impl FileTable {
    /// The guest path that object attributes name.
    fn nt_object_name(&self, mem: &VirtualMemory, attr: u64) -> (r: Option<String>)
        ensures
            match r {
                Some(s) => object_name(self@, mem@, attr) == Some(s@),
                None => object_name(self@, mem@, attr) is None,
            },
    {
        if attr == 0 {
            return None;
        }
        let root: u64 = match mem.read_u64(at(attr, 8)) {
            Ok(v) => v,
            Err(_) => {
                return None;
            },
        };
        let p: u64 = match mem.read_u64(at(attr, 0x10)) {
            Ok(v) => v,
            Err(_) => {
                return None;
            },
        };
        let text = match read_unicode_string(mem, p) {
            Some(s) => s,
            None => {
                return None;
            },
        };
        let name = strip_nt_prefix(text.as_str());
        if root != 0 && root != u64::MAX {
            if let Some(base) = self.dirs.get(&root) {
                return Some(join_path(base.as_str(), name.as_str()));
            }
        }
        Some(name)
    }

    /// What `NtCreateFile` asks the host for.
    pub fn nt_create_file_request(&self, sandbox: bool, rsp: u64, cpu: &CpuState, mem: &VirtualMemory) -> (r: HostRequest)
        ensures
            r@ == nt_create_file_asks(self@, sandbox, rsp, cpu@, mem@),
    {
        let list: Vec<u64> = vec![0, 1, 2, 3, 7];
        assert(list@ =~= seq![0u64, 1u64, 2u64, 3u64, 7u64]);
        let a = match sysargs(rsp, cpu, mem, &list) {
            Ok(v) => v,
            Err(_) => {
                return HostRequest::Nothing;
            },
        };
        match self.nt_object_name(mem, a[2]) {
            None => HostRequest::Nothing,
            Some(name) => if a[0] != 0 && sandbox {
                HostRequest::Open {
                    path: host_parts(name.as_str()),
                    plan: plan_nt(a[1], a[4] as u32),
                }
            } else {
                HostRequest::Nothing
            },
        }
    }

    /// `NtCreateFile`, with how the host opened the file.
    pub fn nt_create_file(
        &mut self,
        next: &mut u64,
        sandbox: bool,
        rsp: u64,
        cpu: &CpuState,
        mem: &mut VirtualMemory,
        host: &HostReply,
    ) -> (r: Result<u64, Fault>)
        requires
            *old(next) <= u64::MAX - 4,
        ensures
            ({
                let o = nt_create_file_out(
                    old(self)@,
                    *old(next),
                    0,
                    sandbox,
                    rsp,
                    cpu@,
                    old(mem)@,
                    *host,
                );
                &&& final(self)@ == o.fs
                &&& *final(next) == o.next
                &&& final(mem)@ == o.reply.mem
                &&& r == o.reply.r
            }),
    {
        let list: Vec<u64> = vec![0, 1, 2, 3, 7];
        assert(list@ =~= seq![0u64, 1u64, 2u64, 3u64, 7u64]);
        let a = match sysargs(rsp, cpu, mem, &list) {
            Ok(v) => v,
            Err(f) => {
                return Err(f);
            },
        };
        if a[0] == 0 {
            return Ok(STATUS_INVALID_PARAMETER);
        }
        let name = match self.nt_object_name(mem, a[2]) {
            Some(n) => n,
            None => {
                return Ok(STATUS_INVALID_PARAMETER);
            },
        };
        if !sandbox {
            return Ok(STATUS_OBJECT_NAME_NOT_FOUND);
        }
        let (existed, is_dir): (bool, bool) = match host {
            HostReply::Opened { existed, is_dir } => (*existed, *is_dir),
            _ => {
                return Ok(STATUS_OBJECT_NAME_NOT_FOUND);
            },
        };
        let ghost v = self@;
        let ghost nm = name@;
        let h: u64 = *next;
        *next = h + 4;
        self.add_file(h);
        if is_dir {
            let _prev = self.dirs.insert(h, name);
            assert(self@.dirs =~= v.dirs.insert(h, nm));
        }
        let d: u32 = a[4] as u32;
        let done: u64 = if d == 2 {
            2
        } else if d == 0 {
            0
        } else if d == 4 || d == 5 {
            if existed {
                3
            } else {
                2
            }
        } else if d == 3 && !existed {
            2
        } else {
            1
        };
        let mut t: Vec<Store> = vec![store64(a[0], h)];
        push_iosb(&mut t, a[3], STATUS_SUCCESS, done);
        assert(t@ =~= seq![s64(a[0], h)] + iosb_table(a[3], STATUS_SUCCESS, done));
        finish(mem, &t, STATUS_SUCCESS)
    }

    /// What `NtReadFile` asks the host for.
    pub fn nt_read_file_request(&self, rsp: u64, cpu: &CpuState, mem: &VirtualMemory) -> (r: HostRequest)
        ensures
            r@ == nt_read_file_asks(self@, rsp, cpu@, mem@),
    {
        let list: Vec<u64> = vec![0, 4, 5, 6, 7];
        assert(list@ =~= seq![0u64, 4u64, 5u64, 6u64, 7u64]);
        let a = match sysargs(rsp, cpu, mem, &list) {
            Ok(v) => v,
            Err(_) => {
                return HostRequest::Nothing;
            },
        };
        match seek_of_read(mem, a[4]) {
            Err(_) => HostRequest::Nothing,
            Ok(seek) => if self.is_file_handle(a[0]) {
                HostRequest::Read { handle: a[0], seek, len: a[3] }
            } else {
                HostRequest::Nothing
            },
        }
    }

    /// `NtReadFile`, with the answer of the host.
    pub fn nt_read_file(
        &self,
        rsp: u64,
        cpu: &CpuState,
        mem: &mut VirtualMemory,
        host: &HostReply,
    ) -> (r: Result<u64, Fault>)
        ensures
            final(mem)@ == nt_read_file_reply(self@, rsp, cpu@, old(mem)@, *host).mem,
            r == nt_read_file_reply(self@, rsp, cpu@, old(mem)@, *host).r,
    {
        let list: Vec<u64> = vec![0, 4, 5, 6, 7];
        assert(list@ =~= seq![0u64, 4u64, 5u64, 6u64, 7u64]);
        let a = match sysargs(rsp, cpu, mem, &list) {
            Ok(v) => v,
            Err(f) => {
                return Err(f);
            },
        };
        if !self.is_file_handle(a[0]) {
            return Ok(STATUS_INVALID_HANDLE);
        }
        match seek_of_read(mem, a[4]) {
            Ok(_) => {},
            Err(f) => {
                return Err(f);
            },
        }
        let d = match host {
            HostReply::Data(d) => take_bytes(d, a[3]),
            _ => {
                let none: Vec<u8> = Vec::new();
                assert(none@ =~= taken(Seq::empty(), a@[3]));
                none
            },
        };
        assert(d@ == taken(host.spec_data(), a@[3]));
        if d.len() == 0 && a[3] != 0 {
            let mut t: Vec<Store> = Vec::new();
            push_iosb(&mut t, a[1], STATUS_END_OF_FILE, 0);
            assert(t@ =~= iosb_table(a[1], STATUS_END_OF_FILE, 0));
            return finish(mem, &t, STATUS_END_OF_FILE);
        }
        match mem.write(a[2], &d) {
            Ok(_) => {},
            Err(f) => {
                return Err(f);
            },
        }
        let mut t: Vec<Store> = Vec::new();
        push_iosb(&mut t, a[1], STATUS_SUCCESS, d.len() as u64);
        assert(t@ =~= iosb_table(a[1], STATUS_SUCCESS, d@.len() as u64));
        finish(mem, &t, STATUS_SUCCESS)
    }

    /// What `NtWriteFile` asks the host for.
    pub fn nt_write_file_request(&self, rsp: u64, cpu: &CpuState, mem: &VirtualMemory) -> (r: HostRequest)
        ensures
            r@ == nt_write_file_asks(self@, rsp, cpu@, mem@),
    {
        let list: Vec<u64> = vec![0, 4, 5, 6, 7];
        assert(list@ =~= seq![0u64, 4u64, 5u64, 6u64, 7u64]);
        let a = match sysargs(rsp, cpu, mem, &list) {
            Ok(v) => v,
            Err(_) => {
                return HostRequest::Nothing;
            },
        };
        match seek_of_write(mem, a[4]) {
            Err(_) => HostRequest::Nothing,
            Ok(seek) => match mem.read_block(a[2], a[3]) {
                Err(_) => HostRequest::Nothing,
                Ok(data) => if self.is_file_handle(a[0]) {
                    HostRequest::Write { handle: a[0], seek, data }
                } else {
                    HostRequest::Nothing
                },
            },
        }
    }

    /// `NtWriteFile`, with the answer of the host.
    pub fn nt_write_file(
        &self,
        rsp: u64,
        cpu: &CpuState,
        mem: &mut VirtualMemory,
        host: &HostReply,
    ) -> (r: Result<u64, Fault>)
        ensures
            final(mem)@ == nt_write_file_reply(self@, rsp, cpu@, old(mem)@, *host).mem,
            r == nt_write_file_reply(self@, rsp, cpu@, old(mem)@, *host).r,
    {
        let list: Vec<u64> = vec![0, 4, 5, 6, 7];
        assert(list@ =~= seq![0u64, 4u64, 5u64, 6u64, 7u64]);
        let a = match sysargs(rsp, cpu, mem, &list) {
            Ok(v) => v,
            Err(f) => {
                return Err(f);
            },
        };
        if !self.is_file_handle(a[0]) {
            return Ok(STATUS_INVALID_HANDLE);
        }
        match seek_of_write(mem, a[4]) {
            Ok(_) => {},
            Err(f) => {
                return Err(f);
            },
        }
        match mem.read_block(a[2], a[3]) {
            Ok(_) => {},
            Err(f) => {
                return Err(f);
            },
        }
        let mut t: Vec<Store> = Vec::new();
        push_iosb(&mut t, a[1], STATUS_SUCCESS, host.count());
        assert(t@ =~= iosb_table(a[1], STATUS_SUCCESS, host.spec_count()));
        finish(mem, &t, STATUS_SUCCESS)
    }

    /// What `NtQueryInformationFile` asks the host for: the size and the position
    /// of the file.
    pub fn nt_query_file_request(&self, rsp: u64, cpu: &CpuState, mem: &VirtualMemory) -> (r:
        HostRequest)
        ensures
            r@ == (match sysargs_at(rsp, cpu@, mem@, seq![0]) {
                Ok(a) => if self@.is_file(a[0]) {
                    RequestView::Stat { handle: a[0] }
                } else {
                    RequestView::Nothing
                },
                Err(_) => RequestView::Nothing,
            }),
    {
        let list: Vec<u64> = vec![0];
        assert(list@ =~= seq![0u64]);
        let a = match sysargs(rsp, cpu, mem, &list) {
            Ok(v) => v,
            Err(_) => {
                return HostRequest::Nothing;
            },
        };
        if self.is_file_handle(a[0]) {
            HostRequest::Stat { handle: a[0] }
        } else {
            HostRequest::Nothing
        }
    }

    /// `NtQueryInformationFile`, with the answer of the host.
    pub fn nt_query_information_file(
        &self,
        rsp: u64,
        cpu: &CpuState,
        mem: &mut VirtualMemory,
        host: &HostReply,
    ) -> (r: Result<u64, Fault>)
        ensures
            final(mem)@ == nt_query_file_reply(self@, rsp, cpu@, old(mem)@, *host).mem,
            r == nt_query_file_reply(self@, rsp, cpu@, old(mem)@, *host).r,
    {
        let list: Vec<u64> = vec![0, 1, 2, 3, 4];
        assert(list@ =~= seq![0u64, 1u64, 2u64, 3u64, 4u64]);
        let a = match sysargs(rsp, cpu, mem, &list) {
            Ok(v) => v,
            Err(f) => {
                return Err(f);
            },
        };
        if !self.is_file_handle(a[0]) {
            return Ok(STATUS_INVALID_HANDLE);
        }
        let class: u32 = a[4] as u32;
        let (size, pos): (u64, u64) = host.stat();
        if class == 5 {
            if a[3] < 0x18 {
                return Ok(STATUS_BUFFER_TOO_SMALL);
            }
            let mut t: Vec<Store> = vec![
                store64(a[2], size),
                store64(at(a[2], 8), size),
                store32(at(a[2], 0x10), 1),
                store32(at(a[2], 0x14), 0),
            ];
            push_iosb(&mut t, a[1], STATUS_SUCCESS, 0x18);
            assert(t@ =~= seq![
                s64(a[2], size),
                s64(ga(a[2], 8), size),
                s32(ga(a[2], 0x10), 1),
                s32(ga(a[2], 0x14), 0),
            ] + iosb_table(a[1], STATUS_SUCCESS, 0x18));
            return finish(mem, &t, STATUS_SUCCESS);
        }
        if class == 20 || class == 14 {
            if a[3] < 8 {
                return Ok(STATUS_BUFFER_TOO_SMALL);
            }
            let v: u64 = if class == 20 {
                size
            } else {
                pos
            };
            let mut t: Vec<Store> = vec![store64(a[2], v)];
            push_iosb(&mut t, a[1], STATUS_SUCCESS, 8);
            assert(t@ =~= seq![s64(a[2], v)] + iosb_table(a[1], STATUS_SUCCESS, 8));
            return finish(mem, &t, STATUS_SUCCESS);
        }
        let mut t: Vec<Store> = Vec::new();
        push_iosb(&mut t, a[1], STATUS_INVALID_PARAMETER, 0);
        assert(t@ =~= iosb_table(a[1], STATUS_INVALID_PARAMETER, 0));
        finish(mem, &t, STATUS_INVALID_PARAMETER)
    }

    /// `NtQueryVolumeInformationFile`.
    pub fn nt_query_volume_information_file(
        &self,
        rsp: u64,
        cpu: &CpuState,
        mem: &mut VirtualMemory,
    ) -> (r: Result<u64, Fault>)
        ensures
            final(mem)@ == nt_query_volume_reply(self@, rsp, cpu@, old(mem)@).mem,
            r == nt_query_volume_reply(self@, rsp, cpu@, old(mem)@).r,
    {
        let list: Vec<u64> = vec![0, 1, 2, 3, 4];
        assert(list@ =~= seq![0u64, 1u64, 2u64, 3u64, 4u64]);
        let a = match sysargs(rsp, cpu, mem, &list) {
            Ok(v) => v,
            Err(f) => {
                return Err(f);
            },
        };
        if !self.is_file_handle(a[0]) {
            return Ok(STATUS_INVALID_HANDLE);
        }
        let class: u32 = a[4] as u32;
        if class == 3 {
            if a[3] < 0x18 {
                return Ok(STATUS_BUFFER_TOO_SMALL);
            }
            let mut t: Vec<Store> = vec![
                store64(a[2], 0x0010_0000),
                store64(at(a[2], 8), 0x0008_0000),
                store32(at(a[2], 0x10), 8),
                store32(at(a[2], 0x14), 512),
            ];
            push_iosb(&mut t, a[1], STATUS_SUCCESS, 0x18);
            assert(t@ =~= seq![
                s64(a[2], 0x0010_0000),
                s64(ga(a[2], 8), 0x0008_0000),
                s32(ga(a[2], 0x10), 8),
                s32(ga(a[2], 0x14), 512),
            ] + iosb_table(a[1], STATUS_SUCCESS, 0x18));
            return finish(mem, &t, STATUS_SUCCESS);
        }
        if class == 4 {
            if a[3] < 8 {
                return Ok(STATUS_BUFFER_TOO_SMALL);
            }
            let mut t: Vec<Store> = vec![store32(a[2], 7), store32(at(a[2], 4), 0)];
            push_iosb(&mut t, a[1], STATUS_SUCCESS, 8);
            assert(t@ =~= seq![s32(a[2], 7), s32(ga(a[2], 4), 0)] + iosb_table(
                a[1],
                STATUS_SUCCESS,
                8,
            ));
            return finish(mem, &t, STATUS_SUCCESS);
        }
        let mut t: Vec<Store> = Vec::new();
        push_iosb(&mut t, a[1], STATUS_INVALID_PARAMETER, 0);
        assert(t@ =~= iosb_table(a[1], STATUS_INVALID_PARAMETER, 0));
        finish(mem, &t, STATUS_INVALID_PARAMETER)
    }

    /// What `NtQueryDirectoryFile` asks the host for.
    pub fn nt_query_directory_request(&self, sandbox: bool, rsp: u64, cpu: &CpuState, mem: &VirtualMemory) -> (r: HostRequest)
        ensures
            r@ == nt_query_dir_asks(self@, sandbox, rsp, cpu@, mem@),
    {
        let list: Vec<u64> = vec![0, 4, 5, 6, 9, 10];
        assert(list@ =~= seq![0u64, 4u64, 5u64, 6u64, 9u64, 10u64]);
        let a = match sysargs(rsp, cpu, mem, &list) {
            Ok(v) => v,
            Err(_) => {
                return HostRequest::Nothing;
            },
        };
        let rescan: bool = a[5] != 0 || !self.finds.contains_key(&a[0]);
        if self.is_file_handle(a[0]) && rescan && sandbox {
            if let Some(dir) = self.dirs.get(&a[0]) {
                return HostRequest::List { path: host_parts(dir.as_str()) };
            }
        }
        HostRequest::Nothing
    }

    /// `NtQueryDirectoryFile`, with what the directory holds.
    pub fn nt_query_directory_file(
        &mut self,
        next: &mut u64,
        rsp: u64,
        cpu: &CpuState,
        mem: &mut VirtualMemory,
        host: &HostReply,
    ) -> (r: Result<u64, Fault>)
        ensures
            ({
                let o = nt_query_dir_out(
                    old(self)@,
                    *old(next),
                    0,
                    rsp,
                    cpu@,
                    old(mem)@,
                    *host,
                );
                &&& final(self)@ == o.fs
                &&& *final(next) == o.next
                &&& final(mem)@ == o.reply.mem
                &&& r == o.reply.r
            }),
    {
        let list: Vec<u64> = vec![0, 4, 5, 6, 9, 10];
        assert(list@ =~= seq![0u64, 4u64, 5u64, 6u64, 9u64, 10u64]);
        let a = match sysargs(rsp, cpu, mem, &list) {
            Ok(v) => v,
            Err(f) => {
                return Err(f);
            },
        };
        if !self.is_file_handle(a[0]) {
            return Ok(STATUS_INVALID_HANDLE);
        }
        let ghost v = self@;
        let ghost wanted = query_find(v, a@, mem@, *host);
        if a[5] != 0 || !self.finds.contains_key(&a[0]) {
            if !self.dirs.contains_key(&a[0]) {
                return Ok(STATUS_INVALID_PARAMETER);
            }
            let pattern = match read_unicode_string(mem, a[4]) {
                Some(s) => {
                    let cs = chars_of(s.as_str());
                    if cs.len() == 0 {
                        string_of(&chars_of("*"))
                    } else {
                        s
                    }
                },
                None => string_of(&chars_of("*")),
            };
            assert(pattern@ == query_pattern(mem@, a@[4]));
            let entries = match host {
                HostReply::Listing(l) => collect_dir_entries(l, pattern.as_str()),
                _ => {
                    let none: Vec<FindEntry> = Vec::new();
                    assert(entry_views(none@) =~= Seq::empty());
                    none
                },
            };
            let state = FindState { entries, pos: 0, wide: true };
            let ghost sv = state@;
            let _prev = self.finds.insert(a[0], state);
            assert(self@ =~= v.with_find(a@[0], sv));
        } else {
            assert(self@ =~= v.with_find(a@[0], v.finds[a@[0]]));
        }
        let ghost scanned = self@;
        assert(wanted is Some && scanned == v.with_find(a@[0], wanted->0));
        let (e, _wide) = match self.take_entry(a[0]) {
            Some(x) => x,
            None => {
                let mut t: Vec<Store> = Vec::new();
                push_iosb(&mut t, a[1], STATUS_NO_MORE_FILES, 0);
                assert(t@ =~= iosb_table(a[1], STATUS_NO_MORE_FILES, 0));
                return finish(mem, &t, STATUS_NO_MORE_FILES);
            },
        };
        let units = encode_utf16(e.name.as_str());
        let need: u128 = 0x60 + units.len() as u128 * 2;
        if (a[3] as u128) < need {
            let mut t: Vec<Store> = Vec::new();
            push_iosb(&mut t, a[1], STATUS_BUFFER_TOO_SMALL, 0);
            assert(t@ =~= iosb_table(a[1], STATUS_BUFFER_TOO_SMALL, 0));
            return finish(mem, &t, STATUS_BUFFER_TOO_SMALL);
        }
        match write_both_dir_information(mem, a[2], &e, &units) {
            Ok(_) => {},
            Err(f) => {
                return Err(f);
            },
        }
        let mut t: Vec<Store> = Vec::new();
        push_iosb(&mut t, a[1], STATUS_SUCCESS, need as u64);
        assert(t@ =~= iosb_table(a[1], STATUS_SUCCESS, need as u64));
        finish(mem, &t, STATUS_SUCCESS)
    }
}

/// The bytes that a read of `len` takes from what the host read.
pub fn take_bytes(d: &Vec<u8>, len: u64) -> (r: Vec<u8>)
    ensures
        r@ == taken(d@, len),
{
    let n: usize = if d.len() as u64 > len {
        len as usize
    } else {
        d.len()
    };
    let mut out: Vec<u8> = Vec::new();
    let mut i: usize = 0;
    while i < n
        invariant
            i <= n <= d.len(),
            out@ == d@.take(i as int),
        decreases n - i,
    {
        out.push(d[i]);
        i = i + 1;
        assert(out@ =~= d@.take(i as int));
    }
    assert(d@.take(d.len() as int) =~= d@);
    out
}

/// Write the record of a directory entry.
fn write_both_dir_information(
    mem: &mut VirtualMemory,
    p: u64,
    e: &FindEntry,
    units: &Vec<u16>,
) -> (r: Result<(), Fault>)
    requires
        units@ == utf16(e@.name),
    ensures
        final(mem)@ == both_dir_record(old(mem)@, p, e@).mem,
        r == crate::mem::fault_result(both_dir_record(old(mem)@, p, e@).fault),
{
    let z = zero_bytes(0x60);
    match mem.write(p, &z) {
        Ok(_) => {},
        Err(f) => {
            return Err(f);
        },
    }
    let attrs: u32 = if e.is_dir {
        FILE_ATTRIBUTE_DIRECTORY
    } else {
        FILE_ATTRIBUTE_NORMAL
    };
    let mut t: Vec<Store> = vec![
        store32(p, 0),
        store64(at(p, 0x08), e.ctime),
        store64(at(p, 0x10), e.atime),
        store64(at(p, 0x18), e.mtime),
        store64(at(p, 0x20), e.mtime),
        store64(at(p, 0x28), e.size),
        store64(at(p, 0x30), e.size),
        store32(at(p, 0x38), attrs),
        store32(at(p, 0x3c), (units.len() as u128 * 2) as u32),
    ];
    let ghost fixed = t@;
    let mut u = unit_stores(at(p, 0x60), units);
    t.append(&mut u);
    proof {
        let v = e@;
        assert(fixed =~= seq![
            s32(p, 0),
            s64(ga(p, 0x08), v.ctime),
            s64(ga(p, 0x10), v.atime),
            s64(ga(p, 0x18), v.mtime),
            s64(ga(p, 0x20), v.mtime),
            s64(ga(p, 0x28), v.size),
            s64(ga(p, 0x30), v.size),
            s32(ga(p, 0x38), entry_attributes(v.is_dir)),
            s32(ga(p, 0x3c), (2 * units.len()) as u32),
        ]);
        assert(t@ =~= fixed + unit_table(ga(p, 0x60), units@));
    }
    mem.store_all(&t)
}

// ---- laws -------------------------------------------------------------------

/// Whether a list of entries ascends by name, whatever the case.
pub open spec fn is_sorted(s: Seq<EntryView>) -> bool {
    forall|i: int, j: int|
        0 <= i < j < s.len() ==> !text_before(
            lower_text((#[trigger] s[j]).name),
            lower_text((#[trigger] s[i]).name),
        )
}

/// Sorting keeps the entries and puts them in order.
pub proof fn lemma_sorted_entries(s: Seq<EntryView>)
    ensures
        sorted_entries(s).to_multiset() == s.to_multiset(),
        sorted_entries(s).len() == s.len(),
        is_sorted(sorted_entries(s)),
    decreases s.len(),
{
    broadcast use vstd::seq_lib::group_to_multiset_ensures;

    if s.len() > 0 {
        let d = s.drop_last();
        let e = s.last();
        lemma_sorted_entries(d);
        let t = sorted_entries(d);
        lemma_first_index(t, comes_after(e));
        let k = entry_slot(t, e);
        let u = t.insert(k, e);
        assert(s =~= d.push(e));
        assert forall|i: int, j: int| 0 <= i < j < u.len() implies !text_before(
            lower_text((#[trigger] u[j]).name),
            lower_text((#[trigger] u[i]).name),
        ) by {
            if j == k {
                assert(!comes_after(e)(t[i]));
            } else if i == k {
                let a = lower_text(e.name);
                let b = lower_text(t[k].name);
                let c = lower_text(t[j - 1].name);
                assert(comes_after(e)(t[k]));
                if text_before(c, a) {
                    crate::names::lemma_before_transitive(c, a, b);
                    if j - 1 == k {
                        crate::names::lemma_before_irreflexive(b);
                    }
                }
            } else {
                let oi = if i < k {
                    i
                } else {
                    i - 1
                };
                let oj = if j < k {
                    j
                } else {
                    j - 1
                };
                assert(u[i] == t[oi] && u[j] == t[oj]);
            }
        }
    }
}

/// A search hands out each of its entries in turn and then no more.
pub proof fn lemma_search_advances(
    fs: FsView,
    next: u64,
    error: u32,
    m: MemView,
    h: u64,
    p: u64,
)
    requires
        fs.finds.contains_key(h),
        0 <= fs.finds[h].pos <= fs.finds[h].entries.len(),
    ensures
        ({
            let o = find_next_out(fs, next, error, m, h, p);
            let f = fs.finds[h];
            &&& o.fs.finds.contains_key(h)
            &&& o.fs.finds[h].entries == f.entries
            &&& f.pos < f.entries.len() ==> o.fs.finds[h].pos == f.pos + 1
            &&& f.pos == f.entries.len() ==> o.fs == fs && o.reply == answer(m, 0) && o.error == 18
        }),
{
}

} // verus!
