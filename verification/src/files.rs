//! The file services of the Win32 libraries. What touches a file is asked of the
//! host; everything else is decided here.

use vstd::prelude::*;

use crate::call::{answer, arg, arg_at, args, args_at, faulted, Reply};
use crate::cpu::{CpuState, CpuView};
use crate::fs::{
    plan_win32, pointer_seek, seek_for, take_bytes, taken, win32_plan, FsView,
    FILE_ATTRIBUTE_DIRECTORY, FILE_ATTRIBUTE_NORMAL, INVALID_HANDLE_VALUE,
};
use crate::gstr::{read_wstr, wide_text, wide_write, write_wstr};
use crate::host::{HostReply, HostRequest, NewTimes, RequestView, Seek};
use crate::mem::{opt, push_opt, s32, store32, Fault, MemView, Store, VirtualMemory};
use crate::ntreg::finish;
use crate::os::{OsReply, OsView, WinOs};
use crate::path::{host_parts, make_temp_name, sandbox_parts, temp_name};
use crate::text::utf16;

verus! {

/// What `GetFileAttributes` answers with for no file.
pub const INVALID_FILE_ATTRIBUTES: u64 = 0xFFFF_FFFF;

pub const ERROR_FILE_NOT_FOUND: u32 = 2;

pub const ERROR_FILE_EXISTS: u32 = 80;

/// The longest name that `GetTempFileName` writes, with its NUL.
pub const MAX_PATH: u64 = 260;

/// The guest path that argument 0 names.
pub open spec fn named(v: OsView, c: CpuView, m: MemView) -> Result<Seq<char>, Fault> {
    match arg_at(v.wide(), c, m, 0) {
        Err(f) => Err(f),
        Ok(p) => wide_text(m, p),
    }
}

/// Where the path that argument 0 names leads below the sandbox.
pub open spec fn named_parts(v: OsView, c: CpuView, m: MemView) -> Option<Seq<Seq<char>>> {
    match named(v, c, m) {
        Ok(name) => if v.has_files() {
            Some(sandbox_parts(name))
        } else {
            None
        },
        Err(_) => None,
    }
}

impl WinOs {
    /// The guest path that argument 0 names.
    fn name_arg(&self, cpu: &CpuState, mem: &VirtualMemory) -> (r: Result<String, Fault>)
        ensures
            match r {
                Ok(s) => named(self@, cpu@, mem@) == Ok::<Seq<char>, Fault>(s@),
                Err(f) => named(self@, cpu@, mem@) == Err::<Seq<char>, Fault>(f),
            },
    {
        match arg(self.cfg.is_64bit, cpu, mem, 0) {
            Ok(p) => read_wstr(mem, p),
            Err(f) => Err(f),
        }
    }

    /// Where the path that argument 0 names leads below the sandbox.
    fn name_parts(&self, cpu: &CpuState, mem: &VirtualMemory) -> (r: Option<Vec<String>>)
        ensures
            match r {
                Some(p) => named_parts(self@, cpu@, mem@) == Some(
                    crate::path::string_views(p@),
                ),
                None => named_parts(self@, cpu@, mem@) is None,
            },
    {
        match self.name_arg(cpu, mem) {
            Ok(name) => if self.has_sandbox() {
                Some(host_parts(name.as_str()))
            } else {
                None
            },
            Err(_) => None,
        }
    }
}

// ---- opening and closing ----------------------------------------------------

/// What `CreateFile` asks of the host.
pub open spec fn create_asks(v: OsView, c: CpuView, m: MemView) -> RequestView {
    match named_parts(v, c, m) {
        None => RequestView::Nothing,
        Some(path) => match args_at(v.wide(), c, m, seq![1, 4]) {
            Err(_) => RequestView::Nothing,
            Ok(a) => RequestView::Open { path, plan: win32_plan(a[0], a[1]) },
        },
    }
}

/// `CreateFile`: the next handle for a file that the host opened. Without a sandbox
/// there is none, and no error is set.
#[verifier::opaque]
pub open spec fn create_file_out(v: OsView, c: CpuView, m: MemView, host: HostReply) -> OsReply {
    match named(v, c, m) {
        Err(f) => OsReply { os: v, mem: m, r: Err(f) },
        Ok(_) => match args_at(v.wide(), c, m, seq![1, 4]) {
            Err(f) => OsReply { os: v, mem: m, r: Err(f) },
            Ok(_) => if !v.has_files() {
                OsReply { os: v, mem: m, r: Ok(INVALID_HANDLE_VALUE) }
            } else if host is Opened {
                OsReply {
                    os: OsView {
                        files: v.files.with_file(v.next_handle),
                        next_handle: (v.next_handle + 4) as u64,
                        ..v
                    },
                    mem: m,
                    r: Ok(v.next_handle),
                }
            } else {
                OsReply {
                    os: v.failed(ERROR_FILE_NOT_FOUND),
                    mem: m,
                    r: Ok(INVALID_HANDLE_VALUE),
                }
            },
        },
    }
}

/// What `CloseHandle` asks of the host.
pub open spec fn close_asks(v: OsView, c: CpuView, m: MemView) -> RequestView {
    match arg_at(v.wide(), c, m, 0) {
        Err(_) => RequestView::Nothing,
        Ok(h) => if !v.objects.handles.contains_key(h) && v.files.is_file(h) {
            RequestView::Close { handle: h }
        } else {
            RequestView::Nothing
        },
    }
}

/// `CloseHandle`: always granted.
#[verifier::opaque]
pub open spec fn close_handle_out(v: OsView, c: CpuView, m: MemView) -> OsReply {
    match arg_at(v.wide(), c, m, 0) {
        Err(f) => OsReply { os: v, mem: m, r: Err(f) },
        Ok(h) => OsReply { os: v.without_handle(h), mem: m, r: Ok(1) },
    }
}

impl WinOs {
    /// What `CreateFile` asks of the host.
    pub fn create_request(&self, cpu: &CpuState, mem: &VirtualMemory) -> (r: HostRequest)
        ensures
            r@ == create_asks(self@, cpu@, mem@),
    {
        let path = match self.name_parts(cpu, mem) {
            Some(p) => p,
            None => {
                return HostRequest::Nothing;
            },
        };
        let list: Vec<u64> = vec![1, 4];
        assert(list@ =~= seq![1u64, 4]);
        let a = match args(self.cfg.is_64bit, cpu, mem, &list) {
            Ok(a) => a,
            Err(_) => {
                return HostRequest::Nothing;
            },
        };
        HostRequest::Open { path, plan: plan_win32(a[0], a[1]) }
    }

    /// Serve `CreateFile`.
    pub fn create_file(&mut self, cpu: &CpuState, mem: &VirtualMemory, host: &HostReply) -> (r: Result<
        u64,
        Fault,
    >)
        requires
            old(self).wf(),
            old(self).has_room(),
        ensures
            final(self).wf(),
            final(self).thunks == old(self).thunks,
            (OsReply { os: final(self)@, mem: mem@, r }) == create_file_out(
                old(self)@,
                cpu@,
                mem@,
                *host,
            ),
    {
        proof {
            reveal(create_file_out);
        }
        match self.name_arg(cpu, mem) {
            Ok(_) => {},
            Err(f) => {
                return Err(f);
            },
        }
        let list: Vec<u64> = vec![1, 4];
        assert(list@ =~= seq![1u64, 4]);
        let _a = match args(self.cfg.is_64bit, cpu, mem, &list) {
            Ok(a) => a,
            Err(f) => {
                return Err(f);
            },
        };
        if !self.has_sandbox() {
            return Ok(INVALID_HANDLE_VALUE);
        }
        match host {
            HostReply::Opened { .. } => {
                let h: u64 = self.next_handle;
                self.next_handle = h + 4;
                self.files.add_file(h);
                Ok(h)
            },
            _ => {
                self.last_error = ERROR_FILE_NOT_FOUND;
                Ok(INVALID_HANDLE_VALUE)
            },
        }
    }

    /// What `CloseHandle` asks of the host.
    pub fn close_request(&self, cpu: &CpuState, mem: &VirtualMemory) -> (r: HostRequest)
        ensures
            r@ == close_asks(self@, cpu@, mem@),
    {
        match arg(self.cfg.is_64bit, cpu, mem, 0) {
            Ok(h) => if !self.objects.handles.contains_key(&h) && self.files.is_file_handle(h) {
                HostRequest::Close { handle: h }
            } else {
                HostRequest::Nothing
            },
            Err(_) => HostRequest::Nothing,
        }
    }

    /// Serve `CloseHandle`.
    pub fn drop_handle(&mut self, cpu: &CpuState, mem: &VirtualMemory) -> (r: Result<u64, Fault>)
        requires
            old(self).wf(),
        ensures
            final(self).wf(),
            final(self).thunks == old(self).thunks,
            (OsReply { os: final(self)@, mem: mem@, r }) == close_handle_out(
                old(self)@,
                cpu@,
                mem@,
            ),
    {
        proof {
            reveal(close_handle_out);
        }
        match arg(self.cfg.is_64bit, cpu, mem, 0) {
            Ok(h) => {
                let _known = self.close_handle(h);
                Ok(1)
            },
            Err(f) => Err(f),
        }
    }
}

// ---- reading and positions --------------------------------------------------

/// What `ReadFile` asks of the host.
pub open spec fn read_asks(v: OsView, c: CpuView, m: MemView) -> RequestView {
    match args_at(v.wide(), c, m, seq![0, 1, 2, 3]) {
        Err(_) => RequestView::Nothing,
        Ok(a) => if v.files.is_file(a[0]) {
            RequestView::Read { handle: a[0], seek: Seek::Keep, len: a[2] }
        } else {
            RequestView::Nothing
        },
    }
}

/// The bytes that a read of a handle gets.
pub open spec fn got(v: OsView, h: u64, len: u64, host: HostReply) -> Seq<u8> {
    if v.files.is_file(h) {
        taken(host.spec_data(), len)
    } else {
        Seq::empty()
    }
}

/// `ReadFile`: what the host read goes to the buffer; a handle that is no file has
/// nothing to read.
#[verifier::opaque]
pub open spec fn read_reply(v: OsView, c: CpuView, m: MemView, host: HostReply) -> Reply {
    match args_at(v.wide(), c, m, seq![0, 1, 2, 3]) {
        Err(f) => faulted(m, f),
        Ok(a) => {
            let d = got(v, a[0], a[2], host);
            let s = m.write(a[1], d);
            match s.fault {
                Some(f) => Reply { mem: s.mem, r: Err(f) },
                None => crate::call::answer_stores(s.mem, opt(s32(a[3], d.len() as u32)), 1),
            }
        },
    }
}

/// What `GetFileSize` asks of the host.
pub open spec fn size_asks(v: OsView, c: CpuView, m: MemView) -> RequestView {
    match arg_at(v.wide(), c, m, 0) {
        Err(_) => RequestView::Nothing,
        Ok(h) => if v.files.is_file(h) {
            RequestView::Stat { handle: h }
        } else {
            RequestView::Nothing
        },
    }
}

/// `GetFileSize`: the low half is the answer, the high half goes to a pointer. A
/// handle that is no file has size 0.
#[verifier::opaque]
pub open spec fn size_reply(v: OsView, c: CpuView, m: MemView, host: HostReply) -> Reply {
    match args_at(v.wide(), c, m, seq![0, 1]) {
        Err(f) => faulted(m, f),
        Ok(a) => {
            let size = if v.files.is_file(a[0]) {
                host.spec_stat().0
            } else {
                0
            };
            crate::call::answer_stores(
                m,
                opt(s32(a[1], (size / 0x1_0000_0000) as u32)),
                size % 0x1_0000_0000,
            )
        },
    }
}

/// The signed distance in the low half of an argument.
pub open spec fn distance_of(a: u64) -> i64 {
    ((a as u32) as i32) as i64
}

/// What `SetFilePointer` asks of the host.
pub open spec fn seek_asks(v: OsView, c: CpuView, m: MemView) -> RequestView {
    match args_at(v.wide(), c, m, seq![0, 1, 3]) {
        Err(_) => RequestView::Nothing,
        Ok(a) => if v.files.is_file(a[0]) {
            RequestView::SeekTo { handle: a[0], seek: pointer_seek(distance_of(a[1]), a[2]) }
        } else {
            RequestView::Nothing
        },
    }
}

/// `SetFilePointer`: the low half of the new position.
#[verifier::opaque]
pub open spec fn seek_reply(v: OsView, c: CpuView, m: MemView, host: HostReply) -> Reply {
    match args_at(v.wide(), c, m, seq![0, 1, 3]) {
        Err(f) => faulted(m, f),
        Ok(a) => answer(
            m,
            if v.files.is_file(a[0]) {
                host.spec_count() % 0x1_0000_0000
            } else {
                INVALID_HANDLE_VALUE
            },
        ),
    }
}

/// The time that a pointer names; none where it is null.
pub open spec fn time_at(m: MemView, p: u64) -> Result<Option<u64>, Fault> {
    if p == 0 {
        Ok(None)
    } else {
        match m.r64(p) {
            Ok(t) => Ok(Some(t)),
            Err(f) => Err(f),
        }
    }
}

/// The file and the times that the arguments of `SetFileTime` name: when it was created,
/// when it was accessed, when it was written.
pub open spec fn times_given(v: OsView, c: CpuView, m: MemView) -> Result<(u64, NewTimes), Fault> {
    match args_at(v.wide(), c, m, seq![0, 1, 2, 3]) {
        Err(f) => Err(f),
        Ok(a) => match time_at(m, a[1]) {
            Err(f) => Err(f),
            Ok(ctime) => match time_at(m, a[2]) {
                Err(f) => Err(f),
                Ok(atime) => match time_at(m, a[3]) {
                    Err(f) => Err(f),
                    Ok(mtime) => Ok((a[0], NewTimes { ctime, atime, mtime })),
                },
            },
        },
    }
}

/// What `SetFileTime` asks of the host.
pub open spec fn times_asks(v: OsView, c: CpuView, m: MemView) -> RequestView {
    match times_given(v, c, m) {
        Err(_) => RequestView::Nothing,
        Ok(g) => if v.files.is_file(g.0) {
            RequestView::SetTimes { handle: g.0, times: g.1 }
        } else {
            RequestView::Nothing
        },
    }
}

/// `SetFileTime`: whether the handle is a file and the host set its times.
#[verifier::opaque]
pub open spec fn times_reply(v: OsView, c: CpuView, m: MemView, host: HostReply) -> Reply {
    match times_given(v, c, m) {
        Err(f) => faulted(m, f),
        Ok(g) => answer(
            m,
            if v.files.is_file(g.0) && host is Done {
                1
            } else {
                0
            },
        ),
    }
}

/// The time that a pointer names; none where it is null.
fn read_time(mem: &VirtualMemory, p: u64) -> (r: Result<Option<u64>, Fault>)
    ensures
        r == time_at(mem@, p),
{
    if p == 0 {
        return Ok(None);
    }
    match mem.read_u64(p) {
        Ok(t) => Ok(Some(t)),
        Err(f) => Err(f),
    }
}

impl WinOs {
    /// The file and the times that the arguments of `SetFileTime` name.
    fn read_times(&self, cpu: &CpuState, mem: &VirtualMemory) -> (r: Result<(u64, NewTimes), Fault>)
        ensures
            r == times_given(self@, cpu@, mem@),
    {
        let list: Vec<u64> = vec![0, 1, 2, 3];
        assert(list@ =~= seq![0u64, 1, 2, 3]);
        let a = match args(self.cfg.is_64bit, cpu, mem, &list) {
            Ok(a) => a,
            Err(f) => {
                return Err(f);
            },
        };
        let ctime = match read_time(mem, a[1]) {
            Ok(t) => t,
            Err(f) => {
                return Err(f);
            },
        };
        let atime = match read_time(mem, a[2]) {
            Ok(t) => t,
            Err(f) => {
                return Err(f);
            },
        };
        match read_time(mem, a[3]) {
            Ok(mtime) => Ok((a[0], NewTimes { ctime, atime, mtime })),
            Err(f) => Err(f),
        }
    }

    /// What `SetFileTime` asks of the host.
    pub fn times_request(&self, cpu: &CpuState, mem: &VirtualMemory) -> (r: HostRequest)
        ensures
            r@ == times_asks(self@, cpu@, mem@),
    {
        match self.read_times(cpu, mem) {
            Ok((handle, times)) => if self.files.is_file_handle(handle) {
                HostRequest::SetTimes { handle, times }
            } else {
                HostRequest::Nothing
            },
            Err(_) => HostRequest::Nothing,
        }
    }

    /// Serve `SetFileTime`.
    pub fn set_file_time(&self, cpu: &CpuState, mem: &VirtualMemory, host: &HostReply) -> (r: Result<
        u64,
        Fault,
    >)
        ensures
            r == times_reply(self@, cpu@, mem@, *host).r,
            times_reply(self@, cpu@, mem@, *host).mem == mem@,
    {
        proof {
            reveal(times_reply);
        }
        match self.read_times(cpu, mem) {
            Ok((handle, _)) => if self.files.is_file_handle(handle) && matches!(host, HostReply::Done) {
                Ok(1)
            } else {
                Ok(0)
            },
            Err(f) => Err(f),
        }
    }

    /// What `ReadFile` asks of the host.
    pub fn read_request(&self, cpu: &CpuState, mem: &VirtualMemory) -> (r: HostRequest)
        ensures
            r@ == read_asks(self@, cpu@, mem@),
    {
        let list: Vec<u64> = vec![0, 1, 2, 3];
        assert(list@ =~= seq![0u64, 1, 2, 3]);
        let a = match args(self.cfg.is_64bit, cpu, mem, &list) {
            Ok(a) => a,
            Err(_) => {
                return HostRequest::Nothing;
            },
        };
        if self.files.is_file_handle(a[0]) {
            HostRequest::Read { handle: a[0], seek: Seek::Keep, len: a[2] }
        } else {
            HostRequest::Nothing
        }
    }

    /// Serve `ReadFile`.
    pub fn read_file(&self, cpu: &CpuState, mem: &mut VirtualMemory, host: &HostReply) -> (r: Result<
        u64,
        Fault,
    >)
        ensures
            final(mem)@ == read_reply(self@, cpu@, old(mem)@, *host).mem,
            r == read_reply(self@, cpu@, old(mem)@, *host).r,
    {
        proof {
            reveal(read_reply);
        }
        let list: Vec<u64> = vec![0, 1, 2, 3];
        assert(list@ =~= seq![0u64, 1, 2, 3]);
        let a = match args(self.cfg.is_64bit, cpu, mem, &list) {
            Ok(a) => a,
            Err(f) => {
                return Err(f);
            },
        };
        let mut d: Vec<u8> = Vec::new();
        if self.files.is_file_handle(a[0]) {
            match host {
                HostReply::Data(data) => {
                    d = take_bytes(data, a[2]);
                },
                _ => {},
            }
        }
        assert(d@ =~= got(self@, a@[0], a@[2], *host));
        match mem.write(a[1], &d) {
            Ok(_) => {},
            Err(f) => {
                return Err(f);
            },
        }
        let mut t: Vec<Store> = Vec::new();
        push_opt(&mut t, store32(a[3], d.len() as u32));
        assert(t@ =~= opt(s32(a@[3], d.len() as u32)));
        finish(mem, &t, 1)
    }

    /// What `GetFileSize` asks of the host.
    pub fn size_request(&self, cpu: &CpuState, mem: &VirtualMemory) -> (r: HostRequest)
        ensures
            r@ == size_asks(self@, cpu@, mem@),
    {
        match arg(self.cfg.is_64bit, cpu, mem, 0) {
            Ok(h) => if self.files.is_file_handle(h) {
                HostRequest::Stat { handle: h }
            } else {
                HostRequest::Nothing
            },
            Err(_) => HostRequest::Nothing,
        }
    }

    /// Serve `GetFileSize`.
    pub fn get_file_size(&self, cpu: &CpuState, mem: &mut VirtualMemory, host: &HostReply) -> (r:
        Result<u64, Fault>)
        ensures
            final(mem)@ == size_reply(self@, cpu@, old(mem)@, *host).mem,
            r == size_reply(self@, cpu@, old(mem)@, *host).r,
    {
        proof {
            reveal(size_reply);
        }
        let list: Vec<u64> = vec![0, 1];
        assert(list@ =~= seq![0u64, 1]);
        let a = match args(self.cfg.is_64bit, cpu, mem, &list) {
            Ok(a) => a,
            Err(f) => {
                return Err(f);
            },
        };
        let size: u64 = if self.files.is_file_handle(a[0]) {
            host.stat().0
        } else {
            0
        };
        let mut t: Vec<Store> = Vec::new();
        push_opt(&mut t, store32(a[1], (size / 0x1_0000_0000) as u32));
        assert(t@ =~= opt(s32(a@[1], (size / 0x1_0000_0000) as u32)));
        finish(mem, &t, size % 0x1_0000_0000)
    }

    /// What `SetFilePointer` asks of the host.
    pub fn seek_request(&self, cpu: &CpuState, mem: &VirtualMemory) -> (r: HostRequest)
        ensures
            r@ == seek_asks(self@, cpu@, mem@),
    {
        let list: Vec<u64> = vec![0, 1, 3];
        assert(list@ =~= seq![0u64, 1, 3]);
        let a = match args(self.cfg.is_64bit, cpu, mem, &list) {
            Ok(a) => a,
            Err(_) => {
                return HostRequest::Nothing;
            },
        };
        if self.files.is_file_handle(a[0]) {
            HostRequest::SeekTo {
                handle: a[0],
                seek: seek_for(((a[1] as u32) as i32) as i64, a[2]),
            }
        } else {
            HostRequest::Nothing
        }
    }

    /// Serve `SetFilePointer`.
    pub fn set_file_pointer(&self, cpu: &CpuState, mem: &VirtualMemory, host: &HostReply) -> (r:
        Result<u64, Fault>)
        ensures
            r == seek_reply(self@, cpu@, mem@, *host).r,
            seek_reply(self@, cpu@, mem@, *host).mem == mem@,
    {
        proof {
            reveal(seek_reply);
        }
        let list: Vec<u64> = vec![0, 1, 3];
        assert(list@ =~= seq![0u64, 1, 3]);
        let a = match args(self.cfg.is_64bit, cpu, mem, &list) {
            Ok(a) => a,
            Err(f) => {
                return Err(f);
            },
        };
        if self.files.is_file_handle(a[0]) {
            Ok(host.count() % 0x1_0000_0000)
        } else {
            Ok(INVALID_HANDLE_VALUE)
        }
    }
}

// ---- names ------------------------------------------------------------------

/// A call on the path in argument 0 that the host either did or did not do.
#[verifier::opaque]
pub open spec fn path_reply(v: OsView, c: CpuView, m: MemView, host: HostReply) -> Reply {
    match named(v, c, m) {
        Err(f) => faulted(m, f),
        Ok(_) => answer(
            m,
            if v.has_files() && host is Done {
                1
            } else {
                0
            },
        ),
    }
}

/// What `CreateDirectory` asks of the host.
pub open spec fn directory_asks(v: OsView, c: CpuView, m: MemView) -> RequestView {
    match named_parts(v, c, m) {
        Some(path) => RequestView::MakeDir { path },
        None => RequestView::Nothing,
    }
}

/// What `DeleteFile` asks of the host.
pub open spec fn delete_asks(v: OsView, c: CpuView, m: MemView) -> RequestView {
    match named_parts(v, c, m) {
        Some(path) => RequestView::Remove { path },
        None => RequestView::Nothing,
    }
}

/// What `GetFileAttributes` asks of the host.
pub open spec fn attributes_asks(v: OsView, c: CpuView, m: MemView) -> RequestView {
    match named_parts(v, c, m) {
        Some(path) => RequestView::Attributes { path },
        None => RequestView::Nothing,
    }
}

/// `GetFileAttributes`.
#[verifier::opaque]
pub open spec fn attributes_reply(v: OsView, c: CpuView, m: MemView, host: HostReply) -> Reply {
    match named(v, c, m) {
        Err(f) => faulted(m, f),
        Ok(_) => answer(
            m,
            if !v.has_files() {
                INVALID_FILE_ATTRIBUTES
            } else {
                match host {
                    HostReply::Attributes { is_dir: true } => FILE_ATTRIBUTE_DIRECTORY as u64,
                    HostReply::Attributes { is_dir: false } => FILE_ATTRIBUTE_NORMAL as u64,
                    _ => INVALID_FILE_ATTRIBUTES,
                }
            },
        ),
    }
}

impl WinOs {
    /// Serve `CreateDirectory` and `DeleteFile`.
    pub fn path_done(&self, cpu: &CpuState, mem: &VirtualMemory, host: &HostReply) -> (r: Result<
        u64,
        Fault,
    >)
        ensures
            r == path_reply(self@, cpu@, mem@, *host).r,
            path_reply(self@, cpu@, mem@, *host).mem == mem@,
    {
        proof {
            reveal(path_reply);
        }
        match self.name_arg(cpu, mem) {
            Ok(_) => {},
            Err(f) => {
                return Err(f);
            },
        }
        match host {
            HostReply::Done => if self.has_sandbox() {
                Ok(1)
            } else {
                Ok(0)
            },
            _ => Ok(0),
        }
    }

    /// What `CreateDirectory` asks of the host.
    pub fn directory_request(&self, cpu: &CpuState, mem: &VirtualMemory) -> (r: HostRequest)
        ensures
            r@ == directory_asks(self@, cpu@, mem@),
    {
        match self.name_parts(cpu, mem) {
            Some(path) => HostRequest::MakeDir { path },
            None => HostRequest::Nothing,
        }
    }

    /// What `DeleteFile` asks of the host.
    pub fn delete_request(&self, cpu: &CpuState, mem: &VirtualMemory) -> (r: HostRequest)
        ensures
            r@ == delete_asks(self@, cpu@, mem@),
    {
        match self.name_parts(cpu, mem) {
            Some(path) => HostRequest::Remove { path },
            None => HostRequest::Nothing,
        }
    }

    /// What `GetFileAttributes` asks of the host.
    pub fn attributes_request(&self, cpu: &CpuState, mem: &VirtualMemory) -> (r: HostRequest)
        ensures
            r@ == attributes_asks(self@, cpu@, mem@),
    {
        match self.name_parts(cpu, mem) {
            Some(path) => HostRequest::Attributes { path },
            None => HostRequest::Nothing,
        }
    }

    /// Serve `GetFileAttributes`.
    pub fn get_file_attributes(&self, cpu: &CpuState, mem: &VirtualMemory, host: &HostReply) -> (r:
        Result<u64, Fault>)
        ensures
            r == attributes_reply(self@, cpu@, mem@, *host).r,
            attributes_reply(self@, cpu@, mem@, *host).mem == mem@,
    {
        proof {
            reveal(attributes_reply);
        }
        match self.name_arg(cpu, mem) {
            Ok(_) => {},
            Err(f) => {
                return Err(f);
            },
        }
        if !self.has_sandbox() {
            return Ok(INVALID_FILE_ATTRIBUTES);
        }
        match host {
            HostReply::Attributes { is_dir } => if *is_dir {
                Ok(FILE_ATTRIBUTE_DIRECTORY as u64)
            } else {
                Ok(FILE_ATTRIBUTE_NORMAL as u64)
            },
            _ => Ok(INVALID_FILE_ATTRIBUTES),
        }
    }
}

// ---- moving and copying -----------------------------------------------------

/// What a move or a copy leads to: success, or an error.
pub open spec fn transfer_out(v: OsView, host: HostReply) -> (OsView, bool) {
    if v.has_files() && host is Done {
        (v, true)
    } else if v.has_files() && host is Exists {
        (v.failed(ERROR_FILE_EXISTS), false)
    } else {
        (v.failed(ERROR_FILE_NOT_FOUND), false)
    }
}

impl WinOs {
    /// What moving a file asks of the host.
    pub fn move_request(&self, from: &str, to: &str) -> (r: HostRequest)
        ensures
            r@ == (if self@.has_files() {
                RequestView::Move { from: sandbox_parts(from@), to: sandbox_parts(to@) }
            } else {
                RequestView::Nothing
            }),
    {
        if self.has_sandbox() {
            HostRequest::Move { from: host_parts(from), to: host_parts(to) }
        } else {
            HostRequest::Nothing
        }
    }

    /// What copying a file asks of the host.
    pub fn copy_request(&self, from: &str, to: &str, fail_if_there: bool) -> (r: HostRequest)
        ensures
            r@ == (if self@.has_files() {
                RequestView::Copy {
                    from: sandbox_parts(from@),
                    to: sandbox_parts(to@),
                    fail_if_there,
                }
            } else {
                RequestView::Nothing
            }),
    {
        if self.has_sandbox() {
            HostRequest::Copy { from: host_parts(from), to: host_parts(to), fail_if_there }
        } else {
            HostRequest::Nothing
        }
    }

    /// Note how a move or a copy went; whether it succeeded.
    fn transferred(&mut self, host: &HostReply) -> (r: bool)
        requires
            old(self).wf(),
        ensures
            final(self).wf(),
            final(self).thunks == old(self).thunks,
            (final(self)@, r) == transfer_out(old(self)@, *host),
    {
        if self.has_sandbox() {
            match host {
                HostReply::Done => {
                    return true;
                },
                HostReply::Exists => {
                    self.last_error = ERROR_FILE_EXISTS;
                    return false;
                },
                _ => {},
            }
        }
        self.last_error = ERROR_FILE_NOT_FOUND;
        false
    }

    /// Serve `MoveFile`: whether the host moved the file.
    pub fn move_file(&mut self, host: &HostReply) -> (r: bool)
        requires
            old(self).wf(),
        ensures
            final(self).wf(),
            final(self).thunks == old(self).thunks,
            (final(self)@, r) == transfer_out(old(self)@, *host),
    {
        self.transferred(host)
    }

    /// Serve `CopyFile`: whether the host copied the file.
    pub fn copy_file(&mut self, host: &HostReply) -> (r: bool)
        requires
            old(self).wf(),
        ensures
            final(self).wf(),
            final(self).thunks == old(self).thunks,
            (final(self)@, r) == transfer_out(old(self)@, *host),
    {
        self.transferred(host)
    }
}

// ---- texts ------------------------------------------------------------------

/// A call that writes a text to the buffer in one argument, whose size in units is
/// in another; `i` is the lower of the two numbers, and the size comes first where
/// `size_first`.
#[verifier::opaque]
pub open spec fn told_text(
    is_64bit: bool,
    c: CpuView,
    m: MemView,
    i: u64,
    size_first: bool,
    text: Seq<char>,
) -> Reply {
    match args_at(is_64bit, c, m, seq![i, (i + 1) as u64]) {
        Err(f) => faulted(m, f),
        Ok(a) => if size_first {
            wide_write(m, a[1], utf16(text), a[0])
        } else {
            wide_write(m, a[0], utf16(text), a[1])
        },
    }
}

/// Write a text to the buffer that the arguments name.
pub fn tell_text(
    is_64bit: bool,
    cpu: &CpuState,
    mem: &mut VirtualMemory,
    i: u64,
    size_first: bool,
    text: &str,
) -> (r: Result<u64, Fault>)
    requires
        i < 60,
    ensures
        final(mem)@ == told_text(is_64bit, cpu@, old(mem)@, i, size_first, text@).mem,
        r == told_text(is_64bit, cpu@, old(mem)@, i, size_first, text@).r,
{
    proof {
        reveal(told_text);
    }
    let list: Vec<u64> = vec![i, i + 1];
    assert(list@ =~= seq![i, (i + 1) as u64]);
    let a = match args(is_64bit, cpu, mem, &list) {
        Ok(a) => a,
        Err(f) => {
            return Err(f);
        },
    };
    if size_first {
        write_wstr(mem, a[1], text, a[0])
    } else {
        write_wstr(mem, a[0], text, a[1])
    }
}

/// What `GetTempFileName` is asked for: directory, prefix, number and buffer.
pub struct TempAsk {
    pub dir: Seq<char>,
    pub prefix: Seq<char>,
    pub unique: u32,
    pub buf: u64,
}

/// What `GetTempFileName` is asked for.
pub open spec fn temp_asked(v: OsView, c: CpuView, m: MemView) -> Result<TempAsk, Fault> {
    match named(v, c, m) {
        Err(f) => Err(f),
        Ok(dir) => match arg_at(v.wide(), c, m, 1) {
            Err(f) => Err(f),
            Ok(p) => match wide_text(m, p) {
                Err(f) => Err(f),
                Ok(prefix) => match args_at(v.wide(), c, m, seq![2, 3]) {
                    Err(f) => Err(f),
                    Ok(a) => Ok(TempAsk { dir, prefix, unique: a[0] as u32, buf: a[1] }),
                },
            },
        },
    }
}

/// The number of the temporary file that comes next.
pub open spec fn temp_number(fs: FsView, unique: u32) -> u32 {
    if unique != 0 {
        unique
    } else {
        (fs.temps + 1) as u32
    }
}

/// What `GetTempFileName` asks of the host: the file is there from then on.
pub open spec fn temp_file_asks(v: OsView, c: CpuView, m: MemView) -> RequestView {
    match temp_asked(v, c, m) {
        Err(_) => RequestView::Nothing,
        Ok(t) => if v.has_files() {
            RequestView::Touch {
                path: sandbox_parts(temp_name(t.dir, t.prefix, temp_number(v.files, t.unique))),
            }
        } else {
            RequestView::Nothing
        },
    }
}

/// `GetTempFileName`: the name goes to the buffer, the number is the answer.
#[verifier::opaque]
pub open spec fn temp_file_out(v: OsView, c: CpuView, m: MemView) -> OsReply {
    match temp_asked(v, c, m) {
        Err(f) => OsReply { os: v, mem: m, r: Err(f) },
        Ok(t) => {
            let u = temp_number(v.files, t.unique);
            let o = wide_write(m, t.buf, utf16(temp_name(t.dir, t.prefix, u)), MAX_PATH);
            OsReply {
                os: OsView {
                    files: if t.unique != 0 {
                        v.files
                    } else {
                        FsView { temps: u, ..v.files }
                    },
                    ..v
                },
                mem: o.mem,
                r: match o.r {
                    Ok(_) => Ok(u as u64),
                    Err(f) => Err(f),
                },
            }
        },
    }
}

/// Directory, prefix, number and buffer of a temporary file.
struct TempArgs {
    dir: String,
    prefix: String,
    unique: u32,
    buf: u64,
}

impl WinOs {
    /// What `GetTempFileName` is asked for.
    fn temp_args(&self, cpu: &CpuState, mem: &VirtualMemory) -> (r: Result<TempArgs, Fault>)
        ensures
            match r {
                Ok(t) => temp_asked(self@, cpu@, mem@) == Ok::<TempAsk, Fault>(
                    TempAsk { dir: t.dir@, prefix: t.prefix@, unique: t.unique, buf: t.buf },
                ),
                Err(f) => temp_asked(self@, cpu@, mem@) == Err::<TempAsk, Fault>(f),
            },
    {
        let dir = match self.name_arg(cpu, mem) {
            Ok(s) => s,
            Err(f) => {
                return Err(f);
            },
        };
        let p: u64 = match arg(self.cfg.is_64bit, cpu, mem, 1) {
            Ok(p) => p,
            Err(f) => {
                return Err(f);
            },
        };
        let prefix = match read_wstr(mem, p) {
            Ok(s) => s,
            Err(f) => {
                return Err(f);
            },
        };
        let list: Vec<u64> = vec![2, 3];
        assert(list@ =~= seq![2u64, 3]);
        let a = match args(self.cfg.is_64bit, cpu, mem, &list) {
            Ok(a) => a,
            Err(f) => {
                return Err(f);
            },
        };
        Ok(TempArgs { dir, prefix, unique: a[0] as u32, buf: a[1] })
    }

    /// What `GetTempFileName` asks of the host.
    pub fn temp_file_request(&self, cpu: &CpuState, mem: &VirtualMemory) -> (r: HostRequest)
        requires
            self.has_room(),
        ensures
            r@ == temp_file_asks(self@, cpu@, mem@),
    {
        let t = match self.temp_args(cpu, mem) {
            Ok(t) => t,
            Err(_) => {
                return HostRequest::Nothing;
            },
        };
        if !self.has_sandbox() {
            return HostRequest::Nothing;
        }
        let u: u32 = if t.unique != 0 {
            t.unique
        } else {
            self.files.temps + 1
        };
        let name = make_temp_name(t.dir.as_str(), t.prefix.as_str(), u);
        HostRequest::Touch { path: host_parts(name.as_str()) }
    }

    /// Serve `GetTempFileName`.
    pub fn get_temp_file_name(&mut self, cpu: &CpuState, mem: &mut VirtualMemory) -> (r: Result<
        u64,
        Fault,
    >)
        requires
            old(self).wf(),
            old(self).has_room(),
        ensures
            final(self).wf(),
            final(self).thunks == old(self).thunks,
            (OsReply { os: final(self)@, mem: final(mem)@, r }) == temp_file_out(
                old(self)@,
                cpu@,
                old(mem)@,
            ),
    {
        proof {
            reveal(temp_file_out);
        }
        let t = match self.temp_args(cpu, mem) {
            Ok(t) => t,
            Err(f) => {
                return Err(f);
            },
        };
        let (name, u) = self.files.temp_file_name(t.dir.as_str(), t.prefix.as_str(), t.unique);
        match write_wstr(mem, t.buf, name.as_str(), MAX_PATH) {
            Ok(_) => Ok(u as u64),
            Err(f) => Err(f),
        }
    }
}

/// The bytes that a guest reads are the first bytes that the host read, and never
/// more than it asked for.
pub proof fn lemma_read_bounded(v: OsView, h: u64, len: u64, host: HostReply)
    ensures
        got(v, h, len, host).len() <= len,
        got(v, h, len, host).is_prefix_of(host.spec_data()),
{
}

/// A handle that was handed out for a file is an open file until it is closed, and
/// no other handle changes.
pub proof fn lemma_open_close(v: OsView, c: CpuView, m: MemView, host: HostReply)
    requires
        v.has_files(),
        host is Opened,
        named(v, c, m) is Ok,
        args_at(v.wide(), c, m, seq![1, 4]) is Ok,
        v.next_handle <= u64::MAX - 8,
        !v.objects.handles.contains_key(v.next_handle),
    ensures
        ({
            let o = create_file_out(v, c, m, host);
            let h = v.next_handle;
            &&& o.r == Ok::<u64, Fault>(h)
            &&& o.os.files.is_file(h)
            &&& !o.os.without_handle(h).files.is_file(h)
            &&& forall|k: u64|
                k != h ==> #[trigger] o.os.without_handle(h).files.is_file(k) == v.files.is_file(k)
        }),
{
    reveal(create_file_out);
}

} // verus!
