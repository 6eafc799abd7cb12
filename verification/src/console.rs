//! Standard output and error: the console and the streams of the C runtime.

use vstd::prelude::*;

use vstd::utf8::encode_utf8;

use crate::api::TRUE;
use crate::call::{answer_stores, arg, arg_at, args, args_at, faulted, Reply};
use crate::cpu::{CpuState, CpuView};
use crate::crt::BYTE_LIMIT;
use crate::gstr::{bytes_from, read_cstr, read_units, units_n};
use crate::host::{HostReply, HostRequest, RequestView, Seek};
use crate::mem::{
    lemma_find_region, opt, push_opt, s32, store32, Fault, MemView, Store, VirtualMemory,
};
use crate::ntreg::finish;
use crate::os::{OsReply, OsView, WinOs, HANDLE_STDERR, HANDLE_STDIN, HANDLE_STDOUT};
use crate::text::{decode_utf16_lossy, utf16_lossy};

verus! {

impl OsView {
    /// With more written to standard output, or to standard error.
    pub open spec fn emitted(self, is_err: bool, d: Seq<u8>) -> OsView {
        if is_err {
            OsView { stderr: self.stderr + d, ..self }
        } else {
            OsView { stdout: self.stdout + d, ..self }
        }
    }
}

/// `GetStdHandle`: 0 for a stream that there is not.
pub open spec fn std_handle(which: i32) -> u64 {
    if which == -10 {
        HANDLE_STDIN
    } else if which == -11 {
        HANDLE_STDOUT
    } else if which == -12 {
        HANDLE_STDERR
    } else {
        0
    }
}

/// `GetStdHandle`.
#[verifier::opaque]
pub open spec fn std_handle_reply(is_64bit: bool, c: CpuView, m: MemView) -> Reply {
    match arg_at(is_64bit, c, m, 0) {
        Err(f) => faulted(m, f),
        Ok(a) => crate::call::answer(m, std_handle((a as u32) as i32)),
    }
}

/// Serve `GetStdHandle`.
pub fn get_std_handle(is_64bit: bool, cpu: &CpuState, mem: &VirtualMemory) -> (r: Result<u64, Fault>)
    ensures
        r == std_handle_reply(is_64bit, cpu@, mem@).r,
        std_handle_reply(is_64bit, cpu@, mem@).mem == mem@,
{
    proof {
        reveal(std_handle_reply);
    }
    let which: i32 = match arg(is_64bit, cpu, mem, 0) {
        Ok(a) => (a as u32) as i32,
        Err(f) => {
            return Err(f);
        },
    };
    Ok(
        if which == -10 {
            HANDLE_STDIN
        } else if which == -11 {
            HANDLE_STDOUT
        } else if which == -12 {
            HANDLE_STDERR
        } else {
            0
        },
    )
}

/// `GetConsoleMode`: processed and wrapped output.
#[verifier::opaque]
pub open spec fn console_mode_reply(is_64bit: bool, c: CpuView, m: MemView) -> Reply {
    match arg_at(is_64bit, c, m, 1) {
        Err(f) => faulted(m, f),
        Ok(p) => answer_stores(m, opt(s32(p, 3)), TRUE),
    }
}

/// Serve `GetConsoleMode`.
pub fn get_console_mode(is_64bit: bool, cpu: &CpuState, mem: &mut VirtualMemory) -> (r: Result<
    u64,
    Fault,
>)
    ensures
        final(mem)@ == console_mode_reply(is_64bit, cpu@, old(mem)@).mem,
        r == console_mode_reply(is_64bit, cpu@, old(mem)@).r,
{
    proof {
        reveal(console_mode_reply);
    }
    let p: u64 = match arg(is_64bit, cpu, mem, 1) {
        Ok(p) => p,
        Err(f) => {
            return Err(f);
        },
    };
    let mut t: Vec<Store> = Vec::new();
    push_opt(&mut t, store32(p, 3));
    assert(t@ =~= opt(s32(p, 3)));
    finish(mem, &t, TRUE)
}

// ---- writing ----------------------------------------------------------------

/// What `WriteFile` asks of the host: the bytes go to an open file.
pub open spec fn write_asks(v: OsView, c: CpuView, m: MemView) -> RequestView {
    match args_at(v.wide(), c, m, seq![0, 1, 2]) {
        Err(_) => RequestView::Nothing,
        Ok(a) => match m.read(a[1], a[2] as nat) {
            Err(_) => RequestView::Nothing,
            Ok(d) => if v.files.is_file(a[0]) {
                RequestView::Write { handle: a[0], seek: Seek::Keep, data: d }
            } else {
                RequestView::Nothing
            },
        },
    }
}

/// `WriteFile`: to an open file as much as the host took, and all of it to the
/// console for every other handle. `WriteConsoleA` knows no files.
#[verifier::opaque]
pub open spec fn write_out(v: OsView, c: CpuView, m: MemView, files: bool, host: HostReply) -> OsReply {
    match args_at(v.wide(), c, m, seq![0, 1, 2, 3]) {
        Err(f) => OsReply { os: v, mem: m, r: Err(f) },
        Ok(a) => match m.read(a[1], a[2] as nat) {
            Err(f) => OsReply { os: v, mem: m, r: Err(f) },
            Ok(d) => {
                let to_file = files && v.files.is_file(a[0]);
                let n = if to_file {
                    host.spec_count()
                } else {
                    a[2]
                };
                let o = answer_stores(m, opt(s32(a[3], n as u32)), TRUE);
                OsReply {
                    os: if to_file {
                        v
                    } else {
                        v.emitted(a[0] == HANDLE_STDERR, d)
                    },
                    mem: o.mem,
                    r: o.r,
                }
            },
        },
    }
}

/// `WriteConsoleW`: code units, as UTF-8.
#[verifier::opaque]
pub open spec fn write_wide_out(v: OsView, c: CpuView, m: MemView) -> OsReply {
    match args_at(v.wide(), c, m, seq![0, 1, 2, 3]) {
        Err(f) => OsReply { os: v, mem: m, r: Err(f) },
        Ok(a) => match units_n(m, a[1], a[2] as nat) {
            Err(f) => OsReply { os: v, mem: m, r: Err(f) },
            Ok(u) => {
                let o = answer_stores(m, opt(s32(a[3], a[2] as u32)), TRUE);
                OsReply {
                    os: v.emitted(a[0] == HANDLE_STDERR, encode_utf8(utf16_lossy(u))),
                    mem: o.mem,
                    r: o.r,
                }
            },
        },
    }
}

/// `fputs`, and `puts` where `line`: a byte string to standard output.
#[verifier::opaque]
pub open spec fn puts_out(v: OsView, c: CpuView, m: MemView, line: bool) -> OsReply {
    match arg_at(v.wide(), c, m, 0) {
        Err(f) => OsReply { os: v, mem: m, r: Err(f) },
        Ok(p) => match bytes_from(m, p, BYTE_LIMIT, 0) {
            Err(f) => OsReply { os: v, mem: m, r: Err(f) },
            Ok(d) => OsReply {
                os: v.emitted(
                    false,
                    if line {
                        d.push(0x0a)
                    } else {
                        d
                    },
                ),
                mem: m,
                r: Ok(0),
            },
        },
    }
}

/// `fputc`: one byte to standard output, which is the answer.
#[verifier::opaque]
pub open spec fn fputc_out(v: OsView, c: CpuView, m: MemView) -> OsReply {
    match arg_at(v.wide(), c, m, 0) {
        Err(f) => OsReply { os: v, mem: m, r: Err(f) },
        Ok(a) => OsReply {
            os: v.emitted(false, seq![a as u8]),
            mem: m,
            r: Ok((a as u8) as u64),
        },
    }
}

/// `fwrite`: some items of a size to standard output; the answer is how many.
#[verifier::opaque]
pub open spec fn fwrite_out(v: OsView, c: CpuView, m: MemView) -> OsReply {
    match args_at(v.wide(), c, m, seq![0, 1, 2]) {
        Err(f) => OsReply { os: v, mem: m, r: Err(f) },
        Ok(a) => match m.read(a[0], (a[1] * a[2]) as nat) {
            Err(f) => OsReply { os: v, mem: m, r: Err(f) },
            Ok(d) => OsReply { os: v.emitted(false, d), mem: m, r: Ok(a[2]) },
        },
    }
}

impl WinOs {
    /// What `WriteFile` asks of the host.
    pub fn write_request(&self, cpu: &CpuState, mem: &VirtualMemory) -> (r: HostRequest)
        ensures
            r@ == write_asks(self@, cpu@, mem@),
    {
        let list: Vec<u64> = vec![0, 1, 2];
        assert(list@ =~= seq![0u64, 1, 2]);
        let a = match args(self.cfg.is_64bit, cpu, mem, &list) {
            Ok(a) => a,
            Err(_) => {
                return HostRequest::Nothing;
            },
        };
        match mem.read_block(a[1], a[2]) {
            Ok(data) => if self.files.is_file_handle(a[0]) {
                HostRequest::Write { handle: a[0], seek: Seek::Keep, data }
            } else {
                HostRequest::Nothing
            },
            Err(_) => HostRequest::Nothing,
        }
    }

    /// Serve `WriteFile`, and `WriteConsoleA` where it knows no files.
    pub fn write_bytes(
        &mut self,
        cpu: &CpuState,
        mem: &mut VirtualMemory,
        files: bool,
        host: &HostReply,
    ) -> (r: Result<u64, Fault>)
        requires
            old(self).wf(),
        ensures
            final(self).wf(),
            final(self).thunks == old(self).thunks,
            (OsReply { os: final(self)@, mem: final(mem)@, r }) == write_out(
                old(self)@,
                cpu@,
                old(mem)@,
                files,
                *host,
            ),
    {
        proof {
            reveal(write_out);
        }
        let list: Vec<u64> = vec![0, 1, 2, 3];
        assert(list@ =~= seq![0u64, 1, 2, 3]);
        let a = match args(self.cfg.is_64bit, cpu, mem, &list) {
            Ok(a) => a,
            Err(f) => {
                return Err(f);
            },
        };
        let d = match mem.read_block(a[1], a[2]) {
            Ok(d) => d,
            Err(f) => {
                return Err(f);
            },
        };
        let n: u64 = if files && self.files.is_file_handle(a[0]) {
            host.count()
        } else {
            self.emit(a[0] == HANDLE_STDERR, &d);
            a[2]
        };
        let mut t: Vec<Store> = Vec::new();
        push_opt(&mut t, store32(a[3], n as u32));
        assert(t@ =~= opt(s32(a@[3], n as u32)));
        finish(mem, &t, TRUE)
    }

    /// Serve `WriteConsoleW`.
    pub fn write_units(&mut self, cpu: &CpuState, mem: &mut VirtualMemory) -> (r: Result<u64, Fault>)
        requires
            old(self).wf(),
        ensures
            final(self).wf(),
            final(self).thunks == old(self).thunks,
            (OsReply { os: final(self)@, mem: final(mem)@, r }) == write_wide_out(
                old(self)@,
                cpu@,
                old(mem)@,
            ),
    {
        proof {
            reveal(write_wide_out);
        }
        let list: Vec<u64> = vec![0, 1, 2, 3];
        assert(list@ =~= seq![0u64, 1, 2, 3]);
        let a = match args(self.cfg.is_64bit, cpu, mem, &list) {
            Ok(a) => a,
            Err(f) => {
                return Err(f);
            },
        };
        let u = match read_units(mem, a[1], a[2]) {
            Ok(u) => u,
            Err(f) => {
                return Err(f);
            },
        };
        let text = decode_utf16_lossy(&u);
        let d = text.as_str().as_bytes_vec();
        self.emit(a[0] == HANDLE_STDERR, &d);
        let mut t: Vec<Store> = Vec::new();
        push_opt(&mut t, store32(a[3], a[2] as u32));
        assert(t@ =~= opt(s32(a@[3], a@[2] as u32)));
        finish(mem, &t, TRUE)
    }

    /// Serve `fputs` and `puts`.
    pub fn put_string(&mut self, cpu: &CpuState, mem: &VirtualMemory, line: bool) -> (r: Result<
        u64,
        Fault,
    >)
        requires
            old(self).wf(),
        ensures
            final(self).wf(),
            final(self).thunks == old(self).thunks,
            (OsReply { os: final(self)@, mem: mem@, r }) == puts_out(
                old(self)@,
                cpu@,
                mem@,
                line,
            ),
    {
        proof {
            reveal(puts_out);
        }
        let p: u64 = match arg(self.cfg.is_64bit, cpu, mem, 0) {
            Ok(p) => p,
            Err(f) => {
                return Err(f);
            },
        };
        let mut d = match read_cstr(mem, p, BYTE_LIMIT) {
            Ok(d) => d,
            Err(f) => {
                return Err(f);
            },
        };
        if line {
            d.push(0x0a);
        }
        self.emit(false, &d);
        Ok(0)
    }

    /// Serve `fputc`.
    pub fn put_byte(&mut self, cpu: &CpuState, mem: &VirtualMemory) -> (r: Result<u64, Fault>)
        requires
            old(self).wf(),
        ensures
            final(self).wf(),
            final(self).thunks == old(self).thunks,
            (OsReply { os: final(self)@, mem: mem@, r }) == fputc_out(
                old(self)@,
                cpu@,
                mem@,
            ),
    {
        proof {
            reveal(fputc_out);
        }
        let b: u8 = match arg(self.cfg.is_64bit, cpu, mem, 0) {
            Ok(a) => a as u8,
            Err(f) => {
                return Err(f);
            },
        };
        let d: Vec<u8> = vec![b];
        assert(d@ =~= seq![b]);
        self.emit(false, &d);
        Ok(b as u64)
    }

    /// Serve `fwrite`.
    pub fn put_items(&mut self, cpu: &CpuState, mem: &VirtualMemory) -> (r: Result<u64, Fault>)
        requires
            old(self).wf(),
        ensures
            final(self).wf(),
            final(self).thunks == old(self).thunks,
            (OsReply { os: final(self)@, mem: mem@, r }) == fwrite_out(
                old(self)@,
                cpu@,
                mem@,
            ),
    {
        proof {
            reveal(fwrite_out);
        }
        let list: Vec<u64> = vec![0, 1, 2];
        assert(list@ =~= seq![0u64, 1, 2]);
        let a = match args(self.cfg.is_64bit, cpu, mem, &list) {
            Ok(a) => a,
            Err(f) => {
                return Err(f);
            },
        };
        let n: u64 = match a[1].checked_mul(a[2]) {
            Some(n) => n,
            None => {
                mem.ascends();
                proof {
                    lemma_find_region(mem@.regions, a@[0] as int);
                }
                return Err(Fault { addr: a[0] });
            },
        };
        match mem.read_block(a[0], n) {
            Ok(d) => {
                self.emit(false, &d);
                Ok(a[2])
            },
            Err(f) => Err(f),
        }
    }
}

/// Standard output only ever grows, and what was written stays as it was.
pub proof fn lemma_output_grows(v: OsView, is_err: bool, d: Seq<u8>)
    ensures
        v.stdout.is_prefix_of(v.emitted(is_err, d).stdout),
        v.stderr.is_prefix_of(v.emitted(is_err, d).stderr),
        v.emitted(is_err, d).stdout.len() + v.emitted(is_err, d).stderr.len() == v.stdout.len()
            + v.stderr.len() + d.len(),
{
}

} // verus!
