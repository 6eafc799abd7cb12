//! NT calls: files and sections as a guest reaches them below the Win32 calls.

use vstd::prelude::*;

use crate::call::{arg_at, sysarg_at, sysargs_at};
use crate::cpu::{CpuView, Reg};
use crate::fs::{
    iosb_table, nt_create_file_asks, nt_read_file_asks, nt_read_file_reply, nt_write_file_asks,
    object_name, FsView,
};
use crate::host::HostReply;
use crate::laws::files::{content_at, lemma_content_read_back, opened, performs, HostFile};
use crate::mem::{
    lemma_find_region, lemma_put_get, lemma_put_shape, opt, s64, write_blocks, Block, Fault,
    MemView, Perm,
};
use crate::os::OsView;
use crate::path::sandbox_parts;
use crate::section::{flat_out, map_out, shown, SectionView};
use crate::util::{lemma_round_up, round_up};
use crate::vm::{any_map, VmView};

verus! {

/// Whether an NT call has the arguments `a`.
pub open spec fn sys_given(rsp: u64, c: CpuView, m: MemView, a: Seq<u64>) -> bool {
    forall|i: int|
        0 <= i < a.len() ==> sysarg_at(rsp, c, m, i as u64) == Ok::<u64, Fault>(#[trigger] a[i])
}

/// Where an NT call finds its arguments: like another call, but the first in R10, where the
/// guest moved it out of the way of the call instruction.
pub proof fn lemma_native_arguments(v: OsView, rsp: u64, c: CpuView, m: MemView, i: u64)
    requires
        i < 64,
        rsp + 8 * i + 8 <= u64::MAX,
        c.rsp() == rsp,
        v.wide(),
    ensures
        sysarg_at(rsp, c, m, 0) == Ok::<u64, Fault>(c.reg(Reg::R10)),
        i > 0 ==> sysarg_at(rsp, c, m, i) == arg_at(v.wide(), c, m, i),
{
}

/// What an NT call that has its arguments reads of them.
proof fn lemma_sys_given(rsp: u64, c: CpuView, m: MemView, a: Seq<u64>, list: Seq<u64>)
    requires
        sys_given(rsp, c, m, a),
        a.len() <= 64,
        forall|i: int| 0 <= i < list.len() ==> (#[trigger] list[i]) < a.len(),
    ensures
        sysargs_at(rsp, c, m, list) == Ok::<Seq<u64>, Fault>(
            Seq::new(list.len(), |i: int| a[list[i] as int]),
        ),
    decreases list.len(),
{
    let want = Seq::new(list.len(), |i: int| a[list[i] as int]);
    if list.len() == 0 {
        assert(want =~= Seq::empty());
    } else {
        let d = list.drop_last();
        assert forall|i: int| 0 <= i < d.len() implies (#[trigger] d[i]) < a.len() by {
            assert(d[i] == list[i]);
        }
        lemma_sys_given(rsp, c, m, a, d);
        let k = list[list.len() - 1] as int;
        assert(sysarg_at(rsp, c, m, k as u64) == Ok::<u64, Fault>(a[k]));
        assert(want =~= Seq::new(d.len(), |i: int| a[d[i] as int]).push(a[k]));
    }
}

/// `NtCreateFile` asks the host for the file that its attributes name. What becomes of a file
/// depends on the disposition: 0 makes an empty one of whatever is there; 1 opens what is
/// there, as it is; 2 makes one that must be new; 3 opens what is there, or makes one; 4
/// empties what is there, and makes none; 5 does, or makes one.
pub proof fn lemma_native_opens(
    fs: FsView,
    rsp: u64,
    c: CpuView,
    m: MemView,
    a: Seq<u64>,
    name: Seq<char>,
    old: Seq<u8>,
)
    requires
        sys_given(rsp, c, m, a),
        a.len() == 8,
        a[0] != 0,
        object_name(fs, m, a[2]) == Some(name),
    ensures
        ({
            let q = nt_create_file_asks(fs, true, rsp, c, m);
            let plan = q->Open_plan;
            let empty = Some(HostFile { content: Seq::empty(), pos: 0 });
            let kept = Some(HostFile { content: old, pos: 0 });
            let d = a[7] as u32;
            &&& q is Open
            &&& q->Open_path == sandbox_parts(name)
            &&& d == 0 ==> opened(Some(old), plan) == empty && opened(None, plan) == empty
            &&& d == 1 ==> opened(Some(old), plan) == kept && opened(None, plan) is None
            &&& d == 2 ==> opened(Some(old), plan) is None && opened(None, plan) == empty
            &&& d == 3 ==> opened(Some(old), plan) == kept && opened(None, plan) == empty
            &&& d == 4 ==> opened(Some(old), plan) == empty && opened(None, plan) is None
            &&& d == 5 ==> opened(Some(old), plan) == empty && opened(None, plan) == empty
            &&& d != 1 ==> plan.write
            &&& d == 1 ==> (plan.write <==> a[1] & 0x4000_0006 != 0)
        }),
{
    let list = seq![0u64, 1, 2, 3, 7];
    lemma_sys_given(rsp, c, m, a, list);
    assert(Seq::new(list.len(), |i: int| a[list[i] as int]) =~= seq![a[0], a[1], a[2], a[3], a[7]]);
}

/// `NtReadFile` reads at the offset that it is given, or where the file is, and fills the
/// buffer with what stands there; at the end of the file it tells so.
pub proof fn lemma_native_reads(
    fs: FsView,
    rsp: u64,
    c: CpuView,
    m: MemView,
    host: HostReply,
    a: Seq<u64>,
    f: HostFile,
    g: HostFile,
    at: int,
)
    requires
        sys_given(rsp, c, m, a),
        a.len() == 8,
        fs.is_file(a[0]),
        0 <= f.pos,
        a[7] == 0 ==> at == f.pos,
        a[7] != 0 ==> 0 <= at < 0x8000_0000_0000_0000 && m.r64(a[7]) == Ok::<u64, Fault>(at as u64),
        a[4] == 0,
        performs(f, nt_read_file_asks(fs, rsp, c, m), host, g),
        nt_read_file_reply(fs, rsp, c, m, host).r is Ok,
    ensures
        ({
            let o = nt_read_file_reply(fs, rsp, c, m, host);
            let d = content_at(f.content, at, a[6] as int);
            &&& d.len() == 0 && a[6] != 0 ==> o.r == Ok::<u64, Fault>(0xC000_0011) && o.mem == m
            &&& d.len() > 0 || a[6] == 0 ==> o.r == Ok::<u64, Fault>(0)
            &&& d.len() > 0 && m.can_read(a[5] as int, d.len() as int) ==> o.mem.read(a[5], d.len())
                == Ok::<Seq<u8>, Fault>(d)
            &&& g.pos == at + d.len()
        }),
{
    let list = seq![0u64, 4, 5, 6, 7];
    lemma_sys_given(rsp, c, m, a, list);
    assert(Seq::new(list.len(), |i: int| a[list[i] as int]) =~= seq![a[0], a[4], a[5], a[6], a[7]]);
    let d = content_at(f.content, at, a[6] as int);
    assert(d.len() <= a[6]);
    assert(iosb_table(0, 0, d.len() as u64) =~= seq![]);
    if d.len() > 0 {
        lemma_put_shape(m, a[5] as int, d);
        lemma_put_get(m, a[5] as int, d);
        let k = m.put(a[5] as int, d);
        assert(k.can_read(a[5] as int, d.len() as int) == m.can_read(a[5] as int, d.len() as int));
    }
}

/// `NtWriteFile` writes the buffer at the offset that it is given, at the end of the file for
/// all ones, or where the file is.
pub proof fn lemma_native_writes(
    fs: FsView,
    rsp: u64,
    c: CpuView,
    m: MemView,
    host: HostReply,
    a: Seq<u64>,
    f: HostFile,
    g: HostFile,
    at: int,
)
    requires
        m.wf(),
        sys_given(rsp, c, m, a),
        a.len() == 8,
        fs.is_file(a[0]),
        0 <= f.pos,
        a[7] == 0 ==> at == f.pos,
        a[7] != 0 ==> m.r64(a[7]) is Ok && (m.r64(a[7])->Ok_0 == u64::MAX ==> at
            == f.content.len()) && (m.r64(a[7])->Ok_0 < 0x8000_0000_0000_0000 ==> at == m.r64(
            a[7],
        )->Ok_0) && (m.r64(a[7])->Ok_0 == u64::MAX || m.r64(a[7])->Ok_0 < 0x8000_0000_0000_0000),
        m.can_read(a[5] as int, a[6] as int),
        performs(f, nt_write_file_asks(fs, rsp, c, m), host, g),
    ensures
        ({
            let d = m.read(a[5], a[6] as nat)->Ok_0;
            &&& content_at(g.content, at, a[6] as int) == d
            &&& g.pos == at + a[6]
            &&& forall|i: int|
                0 <= i < f.content.len() && !(at <= i < at + a[6]) ==> #[trigger] g.content[i]
                    == f.content[i]
        }),
{
    let list = seq![0u64, 4, 5, 6, 7];
    lemma_sys_given(rsp, c, m, a, list);
    assert(Seq::new(list.len(), |i: int| a[list[i] as int]) =~= seq![a[0], a[4], a[5], a[6], a[7]]);
    let d = m.read(a[5], a[6] as nat)->Ok_0;
    lemma_find_region(m.regions, a[5] as int);
    assert(d.len() == a[6]);
    lemma_content_read_back(f.content, at, d);
}

/// A view shows the data of its section from the offset on, as far as the view and the data
/// go.
pub proof fn lemma_view_shows(data: Seq<u8>, offset: u64, size: u64, i: int)
    ensures
        offset <= data.len() && offset + size <= data.len() ==> shown(data, offset, size).len()
            == size,
        offset <= data.len() && data.len() < offset + size ==> shown(data, offset, size).len()
            == data.len() - offset,
        data.len() < offset ==> shown(data, offset, size).len() == 0,
        0 <= i < shown(data, offset, size).len() ==> shown(data, offset, size)[i] == data[offset
            + i],
{
}

proof fn lemma_flat_view(
    s: Map<u64, SectionView>,
    next: u64,
    v: VmView,
    m: MemView,
    h: u64,
    base_ptr: u64,
    offset_ptr: u64,
    size_ptr: u64,
    offset: u64,
    n: u64,
)
    requires
        m.r64(base_ptr) == Ok::<u64, Fault>(0),
        m.r64(size_ptr) == Ok::<u64, Fault>(n),
        offset_ptr != 0,
        m.r64(offset_ptr) == Ok::<u64, Fault>(offset),
        0 < n,
        n % 0x1000 == 0,
        flat_out(s, next, v, m, h, base_ptr, offset_ptr, size_ptr).reply.r == Ok::<u64, Fault>(0),
    ensures
        ({
            let o = flat_out(s, next, v, m, h, base_ptr, offset_ptr, size_ptr);
            let p = any_map(v.next, m, n, Perm::spec_rwx());
            let b = p.base->0;
            let w = p.mem.write(b, shown(s[h].data, offset, n));
            &&& p.base is Some
            &&& w.fault is None
            &&& o.reply.mem == w.mem.store_all(
                seq![s64(base_ptr, b), s64(size_ptr, n), s64(offset_ptr, offset)],
            ).mem
            &&& o.sections == s
        }),
{
    assert(round_up(n as int, 0x1000) == n) by {
        lemma_round_up(n as int, 0x1000);
    }
    let p = any_map(v.next, m, n, Perm::spec_rwx());
    let b = p.base->0;
    let blocks = seq![Block { addr: b, data: shown(s[h].data, offset, n) }];
    assert(blocks.drop_last() =~= seq![]);
    assert(blocks.last() == Block { addr: b, data: shown(s[h].data, offset, n) });
    reveal_with_fuel(write_blocks, 2);
    assert(seq![s64(base_ptr, b), s64(size_ptr, n)] + opt(s64(offset_ptr, offset)) =~= seq![
        s64(base_ptr, b),
        s64(size_ptr, n),
        s64(offset_ptr, offset),
    ]);
}

/// `NtMapViewOfSection` of a section that is no image maps fresh pages of the size that is
/// asked for, lays the data down in them, and tells where.
pub proof fn lemma_maps_view(
    s: Map<u64, SectionView>,
    next: u64,
    v: VmView,
    rsp: u64,
    c: CpuView,
    m: MemView,
    a: Seq<u64>,
    offset: u64,
    n: u64,
)
    requires
        sys_given(rsp, c, m, a),
        a.len() == 7,
        a[2] != 0,
        a[6] != 0,
        s.contains_key(a[0]),
        s[a[0]].image is None,
        m.r64(a[2]) == Ok::<u64, Fault>(0),
        m.r64(a[6]) == Ok::<u64, Fault>(n),
        a[5] != 0,
        m.r64(a[5]) == Ok::<u64, Fault>(offset),
        0 < n,
        n % 0x1000 == 0,
        map_out(s, next, v, rsp, c, m).reply.r == Ok::<u64, Fault>(0),
    ensures
        ({
            let o = map_out(s, next, v, rsp, c, m);
            let p = any_map(v.next, m, n, Perm::spec_rwx());
            let b = p.base->0;
            let w = p.mem.write(b, shown(s[a[0]].data, offset, n));
            &&& p.base is Some
            &&& w.fault is None
            &&& o.reply.mem == w.mem.store_all(
                seq![s64(a[2], b), s64(a[6], n), s64(a[5], offset)],
            ).mem
            &&& o.sections == s
        }),
{
    let list = seq![0u64, 2, 5, 6];
    lemma_sys_given(rsp, c, m, a, list);
    assert(Seq::new(list.len(), |i: int| a[list[i] as int]) =~= seq![a[0], a[2], a[5], a[6]]);
    lemma_flat_view(s, next, v, m, a[0], a[2], a[5], a[6], offset, n);
}

} // verus!
