//! Files of the host as a guest sees them: what it is asked to do to a file, and what comes
//! back.

use vstd::prelude::*;

use crate::api::Api;
use crate::call::arg_at;
use crate::cpu::CpuView;
use crate::dispatch::{dispatch_asks, dispatch_out};
use crate::fs::{
    comes_after, dot_entry, entry_slot, find_data, find_table, found, high32, if_matching, matching,
    sorted_entries, zeros, FindView,
};
use crate::gstr::{fitting, guest_text, wide_table, wide_text};
use crate::host::{entry_views, EntryView, HostReply, Listing, OpenPlan, RequestView, Seek};
use crate::laws::{given, gives, lemma_read_2, lemma_read_3, lemma_read_4, lemma_told};
use crate::laws::controls::{fitted, holds_text, lemma_tells_text};
use crate::laws::paths::lemma_splits;
use crate::laws::served::{
    asks_close_handle, asks_copy_file, asks_create_directory_w, asks_create_file_w,
    asks_delete_file_w, asks_file_time, asks_find_first, asks_get_file_attributes_w,
    asks_get_file_size_api, asks_move_file, asks_read_file_api, asks_set_file_pointer_api,
    asks_write_file, bound_copy_file, bound_file_time, bound_find_next, bound_full_path,
    bound_move_file, serves_close_handle, serves_create_directory_w, serves_create_file_w,
    serves_delete_file_w, serves_get_file_attributes_w, serves_get_file_size_api,
    serves_get_module_file_name, serves_get_temp_path, serves_read_file_api,
    serves_set_file_pointer_api, serves_write_file,
};
use crate::mem::{
    apart, ga, lemma_find_region, lemma_pow256, lemma_put_get, lemma_put_shape, lemma_store_all_get,
    lemma_store_all_join, lemma_sub_access, Fault, MemView,
};
use crate::named::Named;
use crate::os::{OsOut, OsView};
use crate::path::{full_path, sandbox_parts, split_leaf, wildcard};
use crate::text::utf16;
use crate::util::lemma_first_index;

verus! {

// ---- a file of the host -----------------------------------------------------

/// An open file: what it holds, and where it is read and written next.
pub struct HostFile {
    pub content: Seq<u8>,
    pub pos: int,
}

/// The file that a host opens of one that holds `old`, or that is not there: what is in it
/// then. None where it is not opened.
pub open spec fn opened(old: Option<Seq<u8>>, plan: OpenPlan) -> Option<HostFile> {
    match old {
        Some(content) => if plan.create_new {
            None
        } else if plan.truncate {
            Some(HostFile { content: Seq::empty(), pos: 0 })
        } else {
            Some(HostFile { content, pos: 0 })
        },
        None => if plan.create_new || plan.create {
            Some(HostFile { content: Seq::empty(), pos: 0 })
        } else {
            None
        },
    }
}

/// Where a position request leads.
pub open spec fn sought(f: HostFile, s: Seek) -> int {
    match s {
        Seek::Keep => f.pos,
        Seek::Start(n) => n as int,
        Seek::Current(d) => f.pos + d,
        Seek::End(d) => f.content.len() + d,
    }
}

/// What stands in a file from `pos` on, at most `n` bytes.
pub open spec fn content_at(f: Seq<u8>, pos: int, n: int) -> Seq<u8> {
    if pos >= f.len() {
        Seq::empty()
    } else if pos + n <= f.len() {
        f.subrange(pos, pos + n)
    } else {
        f.skip(pos)
    }
}

/// A file with `d` written at `pos`, zeros in a gap before it.
pub open spec fn content_with(f: Seq<u8>, pos: int, d: Seq<u8>) -> Seq<u8> {
    let n = if pos + d.len() > f.len() {
        (pos + d.len()) as nat
    } else {
        f.len()
    };
    Seq::new(
        n,
        |i: int|
            if pos <= i < pos + d.len() {
                d[i - pos]
            } else if i < f.len() {
                f[i]
            } else {
                0
            },
    )
}

/// Whether a host that does all of what it is asked answers a request on the open file `f`
/// with `r`, and leaves `g`.
pub open spec fn performs(f: HostFile, q: RequestView, r: HostReply, g: HostFile) -> bool {
    match q {
        RequestView::Read { seek, len, .. } => {
            let at = sought(f, seek);
            let d = content_at(f.content, at, len as int);
            &&& r is Data
            &&& r->Data_0@ == d
            &&& g == (HostFile { content: f.content, pos: at + d.len() })
        },
        RequestView::Write { seek, data, .. } => {
            let at = sought(f, seek);
            &&& r == HostReply::Count(data.len() as u64)
            &&& g == (HostFile {
                content: content_with(f.content, at, data),
                pos: at + data.len(),
            })
        },
        RequestView::SeekTo { seek, .. } => {
            let at = sought(f, seek);
            &&& 0 <= at <= u64::MAX
            &&& r == HostReply::Count(at as u64)
            &&& g == (HostFile { content: f.content, pos: at })
        },
        RequestView::Stat { .. } => {
            &&& r == (HostReply::Stat { size: f.content.len() as u64, pos: f.pos as u64 })
            &&& g == f
        },
        _ => g == f,
    }
}

/// What is read where something was written is what was written.
pub proof fn lemma_content_read_back(f: Seq<u8>, pos: int, d: Seq<u8>)
    requires
        0 <= pos,
    ensures
        content_at(content_with(f, pos, d), pos, d.len() as int) == d,
{
    assert(content_at(content_with(f, pos, d), pos, d.len() as int) =~= d);
}

// ---- opening ----------------------------------------------------------------

/// `CreateFile` asks the host for the file that the path names below the sandbox. What
/// becomes of a file depends on the disposition: one that must be new (1) is empty, and not
/// opened where it is there; 2 makes an empty one of whatever is there; 3 opens what is
/// there, as it is; 4 does, or makes an empty one; 5 empties what is there, and makes none.
/// Only 2 and 5 ask for a file to be cut. It is opened for writing wherever that was asked
/// for.
pub proof fn lemma_opens(
    v: OsView,
    c: CpuView,
    m: MemView,
    a: Seq<u64>,
    name: Seq<char>,
    old: Seq<u8>,
)
    requires
        given(v, c, m, a),
        a.len() == 5,
        wide_text(m, a[0]) == Ok::<Seq<char>, Fault>(name),
        v.has_files(),
    ensures
        ({
            let q = dispatch_asks(v, Api::CreateFileW, c, m);
            let plan = q->Open_plan;
            let empty = Some(HostFile { content: Seq::empty(), pos: 0 });
            let kept = Some(HostFile { content: old, pos: 0 });
            &&& q is Open
            &&& q->Open_path == sandbox_parts(name)
            &&& a[1] & 0x4000_0000 != 0 ==> plan.write
            &&& a[4] == 3 && a[1] & 0x4000_0000 == 0 ==> !plan.write
            &&& a[4] == 1 ==> opened(Some(old), plan) is None && opened(None, plan) == empty
            &&& a[4] == 2 ==> opened(Some(old), plan) == empty && opened(None, plan) == empty
            &&& a[4] == 3 ==> opened(Some(old), plan) == kept && opened(None, plan) is None
            &&& a[4] == 4 ==> opened(Some(old), plan) == kept && opened(None, plan) == empty
            &&& a[4] == 5 ==> opened(Some(old), plan) == empty && opened(None, plan) is None
            &&& plan.truncate <==> a[4] == 2 || a[4] == 5
            &&& a[4] != 3 ==> plan.write
        }),
{
    asks_create_file_w(v, c, m);
    lemma_read_2(v, c, m, a, 1, 4);
    assert(crate::call::arg_at(v.wide(), c, m, 0) == Ok::<u64, Fault>(a[0]));
}

/// A file that was opened has a handle of its own from then on, and only then; a file that
/// was not is answered with the invalid handle and an error.
pub proof fn lemma_opened(
    v: OsView,
    c: CpuView,
    m: MemView,
    host: HostReply,
    a: Seq<u64>,
    name: Seq<char>,
    other: u64,
)
    requires
        given(v, c, m, a),
        a.len() == 5,
        wide_text(m, a[0]) == Ok::<Seq<char>, Fault>(name),
        v.has_files(),
        v.next_handle <= u64::MAX - 8,
    ensures
        ({
            let o = dispatch_out(v, Api::CreateFileW, c, m, host);
            &&& o.mem == m
            &&& !(host is Opened) ==> gives(o, 0xFFFF_FFFF) && o.os == (OsView { last_error: 2, ..v })
            &&& host is Opened ==> {
                &&& gives(o, v.next_handle)
                &&& o.os.files.is_file(v.next_handle)
                &&& o.os.next_handle > v.next_handle
                &&& other != v.next_handle ==> o.os.files.is_file(other) == v.files.is_file(other)
            }
        }),
{
    reveal(crate::files::create_file_out);
    serves_create_file_w(v, c, m, host);
    lemma_read_2(v, c, m, a, 1, 4);
    assert(crate::call::arg_at(v.wide(), c, m, 0) == Ok::<u64, Fault>(a[0]));
}

/// `CloseHandle` on an open file asks the host to close it and takes the handle back; every
/// other file stays open.
pub proof fn lemma_closed(v: OsView, c: CpuView, m: MemView, host: HostReply, h: u64, other: u64)
    requires
        given(v, c, m, seq![h]),
        v.files.is_file(h),
        !v.objects.handles.contains_key(h),
    ensures
        ({
            let o = dispatch_out(v, Api::CloseHandle, c, m, host);
            &&& dispatch_asks(v, Api::CloseHandle, c, m) == (RequestView::Close { handle: h })
            &&& gives(o, 1)
            &&& o.mem == m
            &&& !o.os.files.is_file(h)
            &&& other != h ==> o.os.files.is_file(other) == v.files.is_file(other)
            &&& o.os.next_handle == v.next_handle
        }),
{
    reveal(crate::files::close_handle_out);
    serves_close_handle(v, c, m, host);
    asks_close_handle(v, c, m);
    assert(seq![h][0] == h);
}

// ---- reading and writing ----------------------------------------------------

/// `ReadFile` fills the buffer with what stands in the file at its position, moves the
/// position behind it, and tells how much it was.
pub proof fn lemma_reads(
    v: OsView,
    c: CpuView,
    m: MemView,
    host: HostReply,
    a: Seq<u64>,
    f: HostFile,
    g: HostFile,
)
    requires
        m.wf(),
        given(v, c, m, a),
        a.len() == 4,
        v.files.is_file(a[0]),
        0 <= f.pos,
        a[2] <= u32::MAX,
        performs(f, dispatch_asks(v, Api::ReadFileApi, c, m), host, g),
        dispatch_out(v, Api::ReadFileApi, c, m, host).r is Ok,
        a[3] + 4 <= a[1] || a[1] + a[2] <= a[3],
    ensures
        ({
            let o = dispatch_out(v, Api::ReadFileApi, c, m, host);
            let d = content_at(f.content, f.pos, a[2] as int);
            &&& gives(o, 1)
            &&& o.os == v
            &&& g.content == f.content
            &&& g.pos == f.pos + d.len()
            &&& m.can_read(a[1] as int, d.len() as int) ==> o.mem.read(a[1], d.len()) == Ok::<
                Seq<u8>,
                Fault,
            >(d)
            &&& a[3] != 0 && m.can_read(a[3] as int, 4) ==> o.mem.r32(a[3]) == Ok::<u32, Fault>(
                d.len() as u32,
            )
        }),
{
    reveal(crate::files::read_reply);
    serves_read_file_api(v, c, m, host);
    asks_read_file_api(v, c, m);
    lemma_read_4(v, c, m, a, 0, 1, 2, 3);
    let d = content_at(f.content, f.pos, a[2] as int);
    assert(d.len() <= a[2]);
    lemma_put_shape(m, a[1] as int, d);
    lemma_put_get(m, a[1] as int, d);
    let k = m.put(a[1] as int, d);
    crate::mem::lemma_store_all_shape(k, crate::mem::opt(crate::mem::s32(a[3], d.len() as u32)));
    if a[3] != 0 {
        assert(crate::mem::opt(crate::mem::s32(a[3], d.len() as u32)) =~= seq![
            crate::mem::s32(a[3], d.len() as u32),
        ]);
        lemma_one_store(k, a[3], d.len() as u32, a[1], d.len());
        if m.can_read(a[3] as int, 4) {
            assert(k.can_read(a[3] as int, 4));
            lemma_told(k, a[3], d.len() as u32);
        }
    } else {
        assert(crate::mem::opt(crate::mem::s32(0, d.len() as u32)) =~= seq![]);
    }
    assert(k.can_read(a[1] as int, d.len() as int) == m.can_read(a[1] as int, d.len() as int));
}

/// A word that is stored apart from some bytes leaves them as they are.
pub proof fn lemma_one_store(m: MemView, p: u64, x: u32, a: u64, n: nat)
    requires
        p + 4 <= a || a + n <= p,
        m.store_all(seq![crate::mem::s32(p, x)]).fault is None,
    ensures
        m.store_all(seq![crate::mem::s32(p, x)]).mem.read(a, n) == m.read(a, n),
{
    let s = crate::mem::s32(p, x);
    let t = seq![s];
    assert(t.drop_last() =~= seq![]);
    assert(t.last() == s);
    reveal_with_fuel(MemView::store_all, 2);
    crate::mem::lemma_le_bytes_len(x as nat, 4);
    lemma_put_shape(m, p as int, s.bytes());
    if m.can_read(a as int, n as int) {
        crate::mem::lemma_put_other(m, p as int, s.bytes(), a as int, n as int);
    }
}

/// `WriteFile` on an open file puts what stands in the buffer into the file at its position,
/// moves the position behind it, and tells how much it was; memory and the rest of the file
/// stay as they are.
pub proof fn lemma_writes(
    v: OsView,
    c: CpuView,
    m: MemView,
    host: HostReply,
    a: Seq<u64>,
    f: HostFile,
    g: HostFile,
)
    requires
        m.wf(),
        given(v, c, m, a),
        a.len() == 4,
        v.files.is_file(a[0]),
        0 <= f.pos,
        a[2] <= u32::MAX,
        m.can_read(a[1] as int, a[2] as int),
        performs(f, dispatch_asks(v, Api::WriteFile, c, m), host, g),
        dispatch_out(v, Api::WriteFile, c, m, host).r is Ok,
    ensures
        ({
            let o = dispatch_out(v, Api::WriteFile, c, m, host);
            let d = m.read(a[1], a[2] as nat)->Ok_0;
            &&& gives(o, 1)
            &&& o.os == v
            &&& g.pos == f.pos + a[2]
            &&& content_at(g.content, f.pos, a[2] as int) == d
            &&& g.content.len() >= f.content.len()
            &&& forall|i: int|
                0 <= i < f.content.len() && !(f.pos <= i < f.pos + a[2]) ==> #[trigger] g.content[i]
                    == f.content[i]
            &&& a[3] != 0 && m.can_read(a[3] as int, 4) ==> o.mem.r32(a[3]) == Ok::<u32, Fault>(
                a[2] as u32,
            )
        }),
{
    reveal(crate::console::write_out);
    serves_write_file(v, c, m, host);
    asks_write_file(v, c, m);
    lemma_read_4(v, c, m, a, 0, 1, 2, 3);
    lemma_read_3(v, c, m, a, 0, 1, 2);
    let d = m.read(a[1], a[2] as nat)->Ok_0;
    lemma_find_region(m.regions, a[1] as int);
    assert(d.len() == a[2]);
    lemma_content_read_back(f.content, f.pos, d);
    if a[3] != 0 && m.can_read(a[3] as int, 4) {
        lemma_told(m, a[3], a[2] as u32);
    }
}

/// `SetFilePointer` moves the position: from the start of the file (0), but not before it,
/// from where it is (1), or from the end (2). It answers with the low half of where it is
/// then. The distance is a signed number of 32 bits.
pub proof fn lemma_moves_pointer(
    v: OsView,
    c: CpuView,
    m: MemView,
    host: HostReply,
    a: Seq<u64>,
    f: HostFile,
    g: HostFile,
)
    requires
        given(v, c, m, a),
        a.len() == 4,
        v.files.is_file(a[0]),
        performs(f, dispatch_asks(v, Api::SetFilePointerApi, c, m), host, g),
    ensures
        ({
            let o = dispatch_out(v, Api::SetFilePointerApi, c, m, host);
            let low = a[1] as int % 0x1_0000_0000;
            let d = if low < 0x8000_0000 {
                low
            } else {
                low - 0x1_0000_0000
            };
            &&& g.content == f.content
            &&& a[3] == 0 && 0 <= d ==> g.pos == d
            &&& a[3] == 0 && d < 0 ==> g.pos == 0
            &&& a[3] == 1 ==> g.pos == f.pos + d
            &&& a[3] == 2 ==> g.pos == f.content.len() + d
            &&& gives(o, (g.pos % 0x1_0000_0000) as u64)
            &&& o.os == v
            &&& o.mem == m
        }),
{
    reveal(crate::files::seek_reply);
    serves_set_file_pointer_api(v, c, m, host);
    asks_set_file_pointer_api(v, c, m);
    lemma_read_3(v, c, m, a, 0, 1, 3);
    let x = a[1];
    assert(((x as u32) as i32) as i64 == if x % 0x1_0000_0000 < 0x8000_0000 {
        (x % 0x1_0000_0000) as i64
    } else {
        ((x % 0x1_0000_0000) as i64 - 0x1_0000_0000i64) as i64
    }) by (bit_vector);
}

/// `GetFileSize` tells how long the file is: the low half is the answer, the high half goes
/// to the pointer.
pub proof fn lemma_tells_size(
    v: OsView,
    c: CpuView,
    m: MemView,
    host: HostReply,
    a: Seq<u64>,
    f: HostFile,
    g: HostFile,
    x: u64,
)
    requires
        given(v, c, m, a),
        a.len() == 2,
        v.files.is_file(a[0]),
        f.content.len() <= u64::MAX,
        performs(f, dispatch_asks(v, Api::GetFileSizeApi, c, m), host, g),
        gives(dispatch_out(v, Api::GetFileSizeApi, c, m, host), x),
    ensures
        x < 0x1_0000_0000,
        a[1] != 0 && m.can_read(a[1] as int, 4) ==> x + 0x1_0000_0000 * dispatch_out(
            v,
            Api::GetFileSizeApi,
            c,
            m,
            host,
        ).mem.r32(a[1])->Ok_0 == f.content.len(),
        a[1] == 0 ==> x == f.content.len() % 0x1_0000_0000,
{
    reveal(crate::files::size_reply);
    serves_get_file_size_api(v, c, m, host);
    asks_get_file_size_api(v, c, m);
    lemma_read_2(v, c, m, a, 0, 1);
    assert(crate::call::arg_at(v.wide(), c, m, 0) == Ok::<u64, Fault>(a[0]));
    let size = f.content.len() as u64;
    if a[1] != 0 && m.can_read(a[1] as int, 4) {
        lemma_told(m, a[1], (size / 0x1_0000_0000) as u32);
    }
}

// ---- names ------------------------------------------------------------------

/// The calls on a path ask the host for that path below the sandbox, and tell how it went:
/// whether a directory was made or a file removed; and of what kind it is, if it is there.
pub proof fn lemma_paths(
    v: OsView,
    c: CpuView,
    m: MemView,
    host: HostReply,
    p: u64,
    name: Seq<char>,
)
    requires
        given(v, c, m, seq![p]),
        wide_text(m, p) == Ok::<Seq<char>, Fault>(name),
        v.has_files(),
    ensures
        dispatch_asks(v, Api::CreateDirectoryW, c, m) == (RequestView::MakeDir {
            path: sandbox_parts(name),
        }),
        dispatch_asks(v, Api::DeleteFileW, c, m) == (RequestView::Remove {
            path: sandbox_parts(name),
        }),
        dispatch_asks(v, Api::GetFileAttributesW, c, m) == (RequestView::Attributes {
            path: sandbox_parts(name),
        }),
        host is Done ==> gives(dispatch_out(v, Api::CreateDirectoryW, c, m, host), 1) && gives(
            dispatch_out(v, Api::DeleteFileW, c, m, host),
            1,
        ),
        !(host is Done) ==> gives(dispatch_out(v, Api::CreateDirectoryW, c, m, host), 0) && gives(
            dispatch_out(v, Api::DeleteFileW, c, m, host),
            0,
        ),
        host == (HostReply::Attributes { is_dir: true }) ==> gives(
            dispatch_out(v, Api::GetFileAttributesW, c, m, host),
            0x10,
        ),
        host == (HostReply::Attributes { is_dir: false }) ==> gives(
            dispatch_out(v, Api::GetFileAttributesW, c, m, host),
            0x80,
        ),
        !(host is Attributes) ==> gives(
            dispatch_out(v, Api::GetFileAttributesW, c, m, host),
            0xFFFF_FFFF,
        ),
{
    reveal(crate::files::attributes_reply);
    reveal(crate::files::path_reply);
    serves_create_directory_w(v, c, m, host);
    asks_create_directory_w(v, c, m);
    serves_delete_file_w(v, c, m, host);
    asks_delete_file_w(v, c, m);
    serves_get_file_attributes_w(v, c, m, host);
    asks_get_file_attributes_w(v, c, m);
    assert(seq![p][0] == p);
}

/// `MoveFile` asks the host to bring the file of the first path to the second, and answers
/// with 1 where it was done.
pub proof fn lemma_moves_file(
    v: OsView,
    c: CpuView,
    m: MemView,
    host: HostReply,
    a: Seq<u64>,
    ex: bool,
    wide: bool,
    from: Seq<char>,
    to: Seq<char>,
)
    requires
        given(v, c, m, a),
        a.len() == 2,
        guest_text(m, a[0], wide) == Ok::<Seq<char>, Fault>(from),
        guest_text(m, a[1], wide) == Ok::<Seq<char>, Fault>(to),
        v.has_files(),
    ensures
        dispatch_asks(v, Api::Bound(Named::MoveFile { ex, wide }), c, m) == (RequestView::Move {
            from: sandbox_parts(from),
            to: sandbox_parts(to),
        }),
        gives(dispatch_out(v, Api::Bound(Named::MoveFile { ex, wide }), c, m, host), 1)
            <==> host is Done,
        gives(dispatch_out(v, Api::Bound(Named::MoveFile { ex, wide }), c, m, host), 0)
            <==> !(host is Done),
{
    reveal(crate::bound::transferred_out);
    bound_move_file(v, c, m, host, ex, wide);
    asks_move_file(v, c, m, ex, wide);
    lemma_read_2(v, c, m, a, 0, 1);
}

/// `CopyFile` asks the host for a copy of the file of the first path at the second, which must
/// be new where that is asked for, and answers with 1 where it was done.
pub proof fn lemma_copies_file(
    v: OsView,
    c: CpuView,
    m: MemView,
    host: HostReply,
    a: Seq<u64>,
    wide: bool,
    from: Seq<char>,
    to: Seq<char>,
)
    requires
        given(v, c, m, a),
        a.len() == 3,
        guest_text(m, a[0], wide) == Ok::<Seq<char>, Fault>(from),
        guest_text(m, a[1], wide) == Ok::<Seq<char>, Fault>(to),
        v.has_files(),
    ensures
        dispatch_asks(v, Api::Bound(Named::CopyFile { wide }), c, m) == (RequestView::Copy {
            from: sandbox_parts(from),
            to: sandbox_parts(to),
            fail_if_there: a[2] != 0,
        }),
        gives(dispatch_out(v, Api::Bound(Named::CopyFile { wide }), c, m, host), 1)
            <==> host is Done,
        gives(dispatch_out(v, Api::Bound(Named::CopyFile { wide }), c, m, host), 0)
            <==> !(host is Done),
        host is Exists ==> dispatch_out(
            v,
            Api::Bound(Named::CopyFile { wide }),
            c,
            m,
            host,
        ).os.last_error == 80,
{
    reveal(crate::bound::transferred_out);
    bound_copy_file(v, c, m, host, wide);
    asks_copy_file(v, c, m, wide);
    lemma_read_3(v, c, m, a, 0, 1, 2);
}

/// `SetFileTime` asks the host to give the open file the times that its three pointers name:
/// when it was created, accessed and written; a null pointer leaves that time as it is.
pub proof fn lemma_sets_times(v: OsView, c: CpuView, m: MemView, host: HostReply, a: Seq<u64>)
    requires
        given(v, c, m, a),
        a.len() == 4,
        v.files.is_file(a[0]),
        a[1] != 0 ==> m.r64(a[1]) is Ok,
        a[2] != 0 ==> m.r64(a[2]) is Ok,
        a[3] != 0 ==> m.r64(a[3]) is Ok,
    ensures
        ({
            let q = dispatch_asks(v, Api::Bound(Named::FileTime), c, m);
            let o = dispatch_out(v, Api::Bound(Named::FileTime), c, m, host);
            &&& q is SetTimes
            &&& q->SetTimes_handle == a[0]
            &&& q->times.ctime is None <==> a[1] == 0
            &&& q->times.atime is None <==> a[2] == 0
            &&& q->times.mtime is None <==> a[3] == 0
            &&& a[1] != 0 ==> m.r64(a[1]) == Ok::<u64, Fault>(q->times.ctime->0)
            &&& a[2] != 0 ==> m.r64(a[2]) == Ok::<u64, Fault>(q->times.atime->0)
            &&& a[3] != 0 ==> m.r64(a[3]) == Ok::<u64, Fault>(q->times.mtime->0)
            &&& gives(o, 1) <==> host is Done
            &&& o.os == v && o.mem == m
        }),
{
    reveal(crate::files::times_reply);
    bound_file_time(v, c, m, host);
    asks_file_time(v, c, m);
    lemma_read_4(v, c, m, a, 0, 1, 2, 3);
}

// ---- directories ------------------------------------------------------------

/// The stores of a record and of the name behind it, as one table.
proof fn lemma_record_joined(m: MemView, p: u64, e: EntryView)
    requires
        p + 592 <= u64::MAX,
        find_data(m, p, e, true).r is Ok,
    ensures
        ({
            let k = m.put(p as int, zeros(592));
            let n = fitting(utf16(e.name).len(), 260);
            let t = find_table(p, e) + wide_table((p + 44) as u64, utf16(e.name).take(n as int));
            &&& m.can_write(p as int, 592)
            &&& k.store_all(t).fault is None
            &&& find_data(m, p, e, true).mem == k.store_all(t).mem
        }),
{
    let k = m.put(p as int, zeros(592));
    let n = fitting(utf16(e.name).len(), 260);
    let t = find_table(p, e);
    let u = wide_table((p + 44) as u64, utf16(e.name).take(n as int));
    assert(ga(p, 44) == p + 44);
    lemma_store_all_join(k, t, u);
}

/// The record of a directory entry: what kind it is, when it was made, accessed and written,
/// low half first, how long it is, high half first, and its name.
pub proof fn lemma_entry_record(m: MemView, p: u64, e: EntryView, i: int)
    requires
        m.wf(),
        p + 592 <= u64::MAX,
        m.can_read(p as int, 592),
        find_data(m, p, e, true).r is Ok,
        utf16(e.name).len() < 260,
    ensures
        ({
            let o = find_data(m, p, e, true).mem;
            let n = utf16(e.name).len();
            &&& o.r32(p) == Ok::<u32, Fault>(
                if e.is_dir {
                    0x10
                } else {
                    0x80
                },
            )
            &&& o.r32((p + 4) as u64)->Ok_0 + 0x1_0000_0000 * o.r32((p + 8) as u64)->Ok_0 == e.ctime
            &&& o.r32((p + 12) as u64)->Ok_0 + 0x1_0000_0000 * o.r32((p + 16) as u64)->Ok_0
                == e.atime
            &&& o.r32((p + 20) as u64)->Ok_0 + 0x1_0000_0000 * o.r32((p + 24) as u64)->Ok_0
                == e.mtime
            &&& o.r32((p + 32) as u64)->Ok_0 + 0x1_0000_0000 * o.r32((p + 28) as u64)->Ok_0 == e.size
            &&& 0 <= i < n ==> o.r16((p + 44 + 2 * i) as u64) == Ok::<u16, Fault>(utf16(e.name)[i])
            &&& o.r16((p + 44 + 2 * n) as u64) == Ok::<u16, Fault>(0)
        }),
{
    lemma_record_joined(m, p, e);
    lemma_record_word(m, p, e, 0);
    lemma_record_word(m, p, e, 1);
    lemma_record_word(m, p, e, 2);
    lemma_record_word(m, p, e, 3);
    lemma_record_word(m, p, e, 4);
    lemma_record_word(m, p, e, 5);
    lemma_record_word(m, p, e, 6);
    lemma_record_word(m, p, e, 7);
    lemma_record_word(m, p, e, 8);
    lemma_halves(e.ctime);
    lemma_halves(e.atime);
    lemma_halves(e.mtime);
    lemma_halves(e.size);
    if 0 <= i < utf16(e.name).len() {
        lemma_record_unit(m, p, e, i);
    }
    lemma_record_unit(m, p, e, utf16(e.name).len() as int);
}

proof fn lemma_halves(x: u64)
    ensures
        x as u32 as int + 0x1_0000_0000 * high32(x) == x,
{
    assert((x as u32) as u64 == x % 0x1_0000_0000) by (bit_vector);
}

/// Where a word of the record of a directory entry stands.
proof fn lemma_word_place(p: u64, e: EntryView, i: int)
    requires
        p + 592 <= u64::MAX,
        0 <= i < 9,
    ensures
        find_table(p, e).len() == 9,
        find_table(p, e)[i].addr == p + 4 * i,
        find_table(p, e)[i].size == 4,
        find_table(p, e)[i].value <= u32::MAX,
{
}

/// Where a unit of the name in the record of a directory entry stands.
proof fn lemma_name_place(p: u64, name: Seq<u16>, i: int)
    requires
        p + 592 <= u64::MAX,
        name.len() < 260,
        0 <= i <= name.len(),
    ensures
        wide_table((p + 44) as u64, name).len() == name.len() + 1,
        wide_table((p + 44) as u64, name)[i].addr == p + 44 + 2 * i,
        wide_table((p + 44) as u64, name)[i].size == 2,
{
    assert(ga((p + 44) as u64, 2 * i) == p + 44 + 2 * i);
}

#[verifier::spinoff_prover]
proof fn lemma_record_word(m: MemView, p: u64, e: EntryView, i: int)
    requires
        m.wf(),
        p + 592 <= u64::MAX,
        m.can_read(p as int, 592),
        find_data(m, p, e, true).r is Ok,
        utf16(e.name).len() < 260,
        0 <= i < 9,
    ensures
        find_data(m, p, e, true).mem.r32((p + 4 * i) as u64) == Ok::<u32, Fault>(
            find_table(p, e)[i].value as u32,
        ),
{
    lemma_record_joined(m, p, e);
    let k = m.put(p as int, zeros(592));
    lemma_put_shape(m, p as int, zeros(592));
    let u = wide_table((p + 44) as u64, utf16(e.name).take(utf16(e.name).len() as int));
    let t = find_table(p, e) + u;
    lemma_pow256();
    lemma_sub_access(m, p as int, 592, p + 4 * i, 4);
    assert(k.can_read(p + 4 * i, 4));
    assert(t[i] == find_table(p, e)[i]);
    lemma_word_place(p, e, i);
    let name = utf16(e.name).take(utf16(e.name).len() as int);
    assert forall|j: int| i < j < t.len() implies apart(t[i], #[trigger] t[j]) by {
        if j < 9 {
            assert(t[j] == find_table(p, e)[j]);
            lemma_word_place(p, e, j);
        } else {
            assert(t[j] == u[j - 9]);
            lemma_name_place(p, name, j - 9);
        }
    }
    lemma_store_all_get(k, t, i);
}

#[verifier::spinoff_prover]
proof fn lemma_record_unit(m: MemView, p: u64, e: EntryView, i: int)
    requires
        m.wf(),
        p + 592 <= u64::MAX,
        m.can_read(p as int, 592),
        find_data(m, p, e, true).r is Ok,
        utf16(e.name).len() < 260,
        0 <= i <= utf16(e.name).len(),
    ensures
        find_data(m, p, e, true).mem.r16((p + 44 + 2 * i) as u64) == Ok::<u16, Fault>(
            if i < utf16(e.name).len() {
                utf16(e.name)[i]
            } else {
                0
            },
        ),
{
    lemma_record_joined(m, p, e);
    let k = m.put(p as int, zeros(592));
    lemma_put_shape(m, p as int, zeros(592));
    let n = utf16(e.name).len() as int;
    let u = wide_table((p + 44) as u64, utf16(e.name).take(n));
    let t = find_table(p, e) + u;
    lemma_pow256();
    lemma_sub_access(m, p as int, 592, p + 44 + 2 * i, 2);
    assert(k.can_read(p + 44 + 2 * i, 2));
    assert(t[9 + i] == u[i]);
    assert(u[i].addr == ga((p + 44) as u64, 2 * i));
    assert(ga((p + 44) as u64, 2 * i) == p + 44 + 2 * i);
    assert(utf16(e.name).take(n) =~= utf16(e.name));
    assert forall|j: int| 9 + i < j < t.len() implies apart(t[9 + i], #[trigger] t[j]) by {
        assert(t[j] == u[j - 9]);
        assert(u[j - 9].addr == ga((p + 44) as u64, 2 * (j - 9)));
        assert(ga((p + 44) as u64, 2 * (j - 9)) == p + 44 + 2 * (j - 9));
    }
    lemma_store_all_get(k, t, 9 + i);
}

/// `FindFirstFile` asks the host for the directory of its pattern, gives a handle, and hands
/// out the first entry; `FindNextFile` hands out the next one with each call, until there is
/// none left (18). A pattern that no entry matches is an error (2).
pub proof fn lemma_finds(
    v: OsView,
    c: CpuView,
    m: MemView,
    host: HostReply,
    a: Seq<u64>,
    es: Seq<EntryView>,
    pos: int,
    wide: bool,
)
    requires
        given(v, c, m, a),
        a.len() == 2,
        v.files.finds.contains_key(a[0]),
        v.files.finds[a[0]] == (FindView { entries: es, pos, wide }),
        0 <= pos <= es.len(),
    ensures
        ({
            let o = dispatch_out(v, Api::Bound(Named::FindNext), c, m, host);
            &&& pos == es.len() ==> gives(o, 0) && o.os.last_error == 18 && o.mem == m
            &&& pos < es.len() && o.r is Ok ==> {
                &&& gives(o, 1)
                &&& o.mem == find_data(m, a[1], es[pos], wide).mem
                &&& o.os.files.finds[a[0]].pos == pos + 1
                &&& o.os.files.finds[a[0]].entries == es
            }
        }),
{
    reveal(crate::bound::next_out);
    bound_find_next(v, c, m, host);
    lemma_read_2(v, c, m, a, 0, 1);
}

/// Sorting keeps what there is.
proof fn lemma_sorted_keeps(s: Seq<EntryView>, e: EntryView)
    ensures
        sorted_entries(s).contains(e) <==> s.contains(e),
        sorted_entries(s).len() == s.len(),
    decreases s.len(),
{
    if s.len() > 0 {
        let d = s.drop_last();
        let t = sorted_entries(d);
        let x = s.last();
        let k = entry_slot(t, x);
        lemma_sorted_keeps(d, e);
        lemma_first_index(t, comes_after(x));
        let r = t.insert(k, x);
        assert(r[k] == x);
        if t.contains(e) {
            let i = choose|i: int| 0 <= i < t.len() && t[i] == e;
            if i < k {
                assert(r[i] == e);
            } else {
                assert(r[i + 1] == e);
            }
        }
        if r.contains(e) && e != x {
            let i = choose|i: int| 0 <= i < r.len() && r[i] == e;
            if i < k {
                assert(t[i] == e);
            } else {
                assert(t[i - 1] == e);
            }
        }
        if s.contains(e) && e != x {
            let i = choose|i: int| 0 <= i < s.len() && s[i] == e;
            assert(d[i] == e);
        }
        if d.contains(e) {
            let i = choose|i: int| 0 <= i < d.len() && d[i] == e;
            assert(s[i] == e);
        }
        assert(s[s.len() - 1] == x);
    }
}

proof fn lemma_matching_keeps(s: Seq<EntryView>, leaf: Seq<char>, e: EntryView)
    ensures
        matching(s, leaf).contains(e) <==> s.contains(e) && wildcard(leaf, e.name),
    decreases s.len(),
{
    if s.len() > 0 {
        let d = s.drop_last();
        let t = matching(d, leaf);
        let x = s.last();
        lemma_matching_keeps(d, leaf, e);
        let r = matching(s, leaf);
        if t.contains(e) {
            let i = choose|i: int| 0 <= i < t.len() && t[i] == e;
            assert(r[i] == e);
        }
        if wildcard(leaf, x.name) {
            assert(r[t.len() as int] == x);
        }
        if r.contains(e) && e != x {
            let i = choose|i: int| 0 <= i < r.len() && r[i] == e;
            assert(t[i] == e);
        }
        if s.contains(e) && e != x {
            let i = choose|i: int| 0 <= i < s.len() && s[i] == e;
            assert(d[i] == e);
        }
        if d.contains(e) {
            let i = choose|i: int| 0 <= i < d.len() && d[i] == e;
            assert(s[i] == e);
        }
        assert(s[s.len() - 1] == x);
    }
}

/// A search finds exactly what matches its pattern: the entries that the host lists, and the
/// directory itself and its parent under their two names.
pub proof fn lemma_search_finds(l: Listing, leaf: Seq<char>, e: EntryView)
    ensures
        found(l, leaf).contains(e) <==> wildcard(leaf, e.name) && (entry_views(
            l.entries@,
        ).contains(e) || e == dot_entry("."@, l.here) || e == dot_entry(".."@, l.parent)),
{
    let p = dot_entry("."@, l.here);
    let q = dot_entry(".."@, l.parent);
    let a = if_matching(p, leaf);
    let b = if_matching(q, leaf);
    let t = matching(entry_views(l.entries@), leaf);
    let s = a + b + t;
    lemma_sorted_keeps(s, e);
    lemma_matching_keeps(entry_views(l.entries@), leaf, e);
    if a.contains(e) {
        assert(s[0] == e);
    }
    if b.contains(e) {
        assert(s[a.len() as int] == e);
    }
    if t.contains(e) {
        let i = choose|i: int| 0 <= i < t.len() && t[i] == e;
        assert(s[a.len() + b.len() + i] == e);
    }
    if s.contains(e) {
        let i = choose|i: int| 0 <= i < s.len() && s[i] == e;
        if i < a.len() {
            assert(a[i] == e);
        } else if i < a.len() + b.len() {
            assert(b[i - a.len()] == e);
        } else {
            assert(t[i - a.len() - b.len()] == e);
        }
    }
    if wildcard(leaf, p.name) {
        assert(a[0] == p);
    }
    if wildcard(leaf, q.name) {
        assert(b[0] == q);
    }
}

proof fn lemma_split_at(dir: Seq<char>, leaf: Seq<char>)
    requires
        forall|i: int| 0 <= i < leaf.len() ==> #[trigger] leaf[i] != '\\',
    ensures
        split_leaf(dir + seq!['\\'] + leaf) == (dir, leaf),
{
    let s = dir + seq!['\\'] + leaf;
    let (d, l) = split_leaf(s);
    lemma_splits(s);
    let n = s.len() as int;
    assert(s[dir.len() as int] == '\\');
    if l.len() > leaf.len() {
        assert(l =~= s.skip(n - l.len()));
        assert(l[l.len() - leaf.len() - 1] == s[dir.len() as int]);
    }
    if l.len() < leaf.len() {
        assert(s[d.len() as int] == '\\');
        assert(s[n - l.len() - 1] == leaf[leaf.len() - l.len() - 1]);
    }
    assert(d =~= dir);
    assert(l =~= s.skip(n - l.len()));
    assert(leaf =~= s.skip(n - leaf.len()));
}

/// `FindFirstFile` asks the host to list the directory that the pattern names before its
/// last part.
pub proof fn lemma_asks_listing(
    v: OsView,
    c: CpuView,
    m: MemView,
    ex: bool,
    wide: bool,
    p: u64,
    dir: Seq<char>,
    leaf: Seq<char>,
)
    requires
        v.has_files(),
        given(v, c, m, seq![p]),
        forall|i: int| 0 <= i < leaf.len() ==> #[trigger] leaf[i] != '\\',
        guest_text(m, p, wide) == Ok::<Seq<char>, Fault>(dir + seq!['\\'] + leaf),
    ensures
        dispatch_asks(v, Api::Bound(Named::FindFirst { ex, wide }), c, m) == (RequestView::List {
            path: sandbox_parts(dir),
        }),
{
    asks_find_first(v, c, m, ex, wide);
    assert(seq![p][0] == p);
    lemma_split_at(dir, leaf);
}

/// `GetTempPath`, `GetModuleFileName` and `GetFullPathName` tell the directory for temporary
/// files, the path of the program and the absolute form of a path, as far as the buffer has
/// room, and how much that is.
pub proof fn lemma_tells_paths(
    v: OsView,
    c: CpuView,
    m: MemView,
    host: HostReply,
    a: Seq<u64>,
    name: Seq<char>,
)
    requires
        given(v, c, m, a),
        a.len() == 3,
        m.wf(),
    ensures
        room(m, a[1], a[0]) && dispatch_out(v, Api::GetTempPathW, c, m, host).r is Ok ==> tells(
            dispatch_out(v, Api::GetTempPathW, c, m, host),
            a[1],
            "C:\\Temp\\"@,
            a[0],
        ),
        room(m, a[1], a[2]) && dispatch_out(v, Api::GetModuleFileNameW, c, m, host).r is Ok
            ==> tells(
            dispatch_out(v, Api::GetModuleFileNameW, c, m, host),
            a[1],
            v.cfg.module_path_w@,
            a[2],
        ),
        room(m, a[2], a[1]) && guest_text(m, a[0], true) == Ok::<Seq<char>, Fault>(name)
            && dispatch_out(v, Api::Bound(Named::FullPath), c, m, host).r is Ok ==> tells(
            dispatch_out(v, Api::Bound(Named::FullPath), c, m, host),
            a[2],
            full_path(name),
            a[1],
        ),
{
    reveal(crate::bound::full_path_reply);
    reveal(crate::files::told_text);
    serves_get_temp_path(v, c, m, host);
    serves_get_module_file_name(v, c, m, host);
    bound_full_path(v, c, m, host);
    assert(arg_at(v.wide(), c, m, 0) == Ok::<u64, Fault>(a[0]));
    lemma_read_2(v, c, m, a, 0, 1);
    lemma_read_2(v, c, m, a, 1, 2);
    if room(m, a[1], a[0]) && dispatch_out(v, Api::GetTempPathW, c, m, host).r is Ok {
        lemma_tells_text(m, a[1], utf16("C:\\Temp\\"@), a[0]);
    }
    if room(m, a[1], a[2]) && dispatch_out(v, Api::GetModuleFileNameW, c, m, host).r is Ok {
        lemma_tells_text(m, a[1], utf16(v.cfg.module_path_w@), a[2]);
    }
    if room(m, a[2], a[1]) && guest_text(m, a[0], true) == Ok::<Seq<char>, Fault>(name)
        && dispatch_out(v, Api::Bound(Named::FullPath), c, m, host).r is Ok {
        lemma_tells_text(m, a[2], utf16(full_path(name)), a[1]);
    }
}

/// Whether a buffer lies in memory.
pub open spec fn room(m: MemView, p: u64, max: u64) -> bool {
    p != 0 && 0 < max && p + 2 * max <= u64::MAX && m.can_read(p as int, 2 * max as int)
}

/// Whether a call leaves a text in a buffer and answers with its length.
pub open spec fn tells(o: OsOut, p: u64, text: Seq<char>, max: u64) -> bool {
    &&& gives(o, fitted(utf16(text), max).len() as u64)
    &&& holds_text(o.mem, p, fitted(utf16(text), max))
}

} // verus!
