//! The calls on synchronization objects: create, open, signal and wait.

use vstd::prelude::*;

use crate::call::{answer_after, arg_at, args, args_at, faulted, Outcome, Reply};
use crate::cpu::{CpuState, CpuView};
use crate::gstr::{bytes_from, read_cstr, read_wstr, wide_text};
use crate::mem::{at, ga, opt, push_opt, s32, store32, Fault, MemView, Store, VirtualMemory};
use crate::sched::{switch_out, SchedView, Scheduler, ThreadState, WaitDesc, WaitView};
use crate::sync::{
    lemma_with_new_wf, lemma_with_obj_wf, KObject, ObjectTable, SignalOp, SyncKind, TableView,
    WAIT_OBJECT_0, WAIT_TIMEOUT,
};
use crate::text::{decode_utf8_lossy, utf8_lossy};
use crate::util::first_index;

verus! {

pub const ERROR_ALREADY_EXISTS: u32 = 183;

pub const ERROR_NAME_NOT_FOUND: u32 = 2;

/// The longest narrow name of an object.
pub const NAME_LIMIT: u64 = 512;

/// The objects of a process, their names, the next handle and the last error.
#[verifier::ext_equal]
pub struct ObjCtx {
    pub objects: TableView,
    pub names: Map<Seq<char>, u64>,
    pub next: u64,
    pub error: u32,
}

/// What a call on the objects leads to.
pub struct ObjOut {
    pub ctx: ObjCtx,
    pub r: Result<u64, Fault>,
}

/// The name of an object in guest memory; a null pointer and an empty string
/// both name nothing.
pub open spec fn name_at(m: MemView, p: u64, wide: bool) -> Result<Option<Seq<char>>, Fault> {
    if p == 0 {
        Ok(None)
    } else {
        let text = if wide {
            wide_text(m, p)
        } else {
            match bytes_from(m, p, NAME_LIMIT, 0) {
                Err(f) => Err(f),
                Ok(b) => Ok(utf8_lossy(b)),
            }
        };
        match text {
            Err(f) => Err(f),
            Ok(s) => Ok(
                if s.len() == 0 {
                    None
                } else {
                    Some(s)
                },
            ),
        }
    }
}

/// The view of an optional name.
pub open spec fn name_view(n: Option<String>) -> Option<Seq<char>> {
    match n {
        Some(s) => Some(s@),
        None => None,
    }
}

/// Read the name of an object.
pub fn read_name(mem: &VirtualMemory, p: u64, wide: bool) -> (r: Result<Option<String>, Fault>)
    ensures
        match r {
            Ok(n) => name_at(mem@, p, wide) == Ok::<Option<Seq<char>>, Fault>(name_view(n)),
            Err(f) => name_at(mem@, p, wide) == Err::<Option<Seq<char>>, Fault>(f),
        },
{
    if p == 0 {
        return Ok(None);
    }
    let s: String = if wide {
        match read_wstr(mem, p) {
            Ok(s) => s,
            Err(f) => {
                return Err(f);
            },
        }
    } else {
        match read_cstr(mem, p, NAME_LIMIT) {
            Ok(b) => decode_utf8_lossy(&b),
            Err(f) => {
                return Err(f);
            },
        }
    };
    let cs = crate::text::chars_of(s.as_str());
    if cs.len() == 0 {
        Ok(None)
    } else {
        Ok(Some(s))
    }
}

/// Making an object: one of that name is opened again, which counts as an error
/// though the handle is good; else a new one gets the next handle.
pub open spec fn object_made(x: ObjCtx, name: Option<Seq<char>>, o: KObject) -> (ObjCtx, u64) {
    if name is Some && x.names.contains_key(name->0) {
        (ObjCtx { error: ERROR_ALREADY_EXISTS, ..x }, x.names[name->0])
    } else {
        (
            ObjCtx {
                objects: x.objects.with_new(x.next, o),
                names: match name {
                    Some(n) => x.names.insert(n, x.next),
                    None => x.names,
                },
                next: (x.next + 4) as u64,
                ..x
            },
            x.next,
        )
    }
}

/// The arguments of a create call up to its name, and those read behind it.
pub open spec fn create_lists(kind: SyncKind, ex: bool) -> (Seq<u64>, Seq<u64>) {
    match (kind, ex) {
        (SyncKind::Event, false) => (seq![1, 2, 3], seq![]),
        (SyncKind::Mutex, false) => (seq![1, 2], seq![]),
        (SyncKind::Semaphore, _) => (seq![1, 2, 3], seq![]),
        (SyncKind::Timer, false) => (seq![1, 2], seq![]),
        _ => (seq![1], seq![2]),
    }
}

/// The object that a create call asks for. The extended calls have flags in
/// place of words: bit 0 is manual reset for an event and ownership for a
/// mutex, bit 1 the initial state of an event and manual reset for a timer.
pub open spec fn object_asked(
    kind: SyncKind,
    ex: bool,
    a: Seq<u64>,
    b: Seq<u64>,
    tid: u32,
) -> KObject {
    match (kind, ex) {
        (SyncKind::Event, false) => KObject::created(kind, a[0] != 0, a[1] != 0, 0, 0, tid),
        (SyncKind::Event, true) => KObject::created(
            kind,
            b[0] & 1 != 0,
            b[0] & 2 != 0,
            0,
            0,
            tid,
        ),
        (SyncKind::Mutex, false) => KObject::created(kind, false, a[0] != 0, 0, 0, tid),
        (SyncKind::Mutex, true) => KObject::created(kind, false, b[0] & 1 != 0, 0, 0, tid),
        (SyncKind::Semaphore, _) => KObject::created(
            kind,
            false,
            false,
            a[0] as i32,
            a[1] as i32,
            tid,
        ),
        (SyncKind::Timer, false) => KObject::created(kind, a[0] != 0, false, 0, 0, tid),
        (SyncKind::Timer, true) => KObject::created(kind, b[0] & 2 != 0, false, 0, 0, tid),
    }
}

/// `CreateEvent`, `CreateMutex`, `CreateSemaphore` and `CreateWaitableTimer`, and
/// their extended forms.
#[verifier::opaque]
pub open spec fn create_sync_out(
    x: ObjCtx,
    tid: u32,
    is_64bit: bool,
    c: CpuView,
    m: MemView,
    kind: SyncKind,
    ex: bool,
    wide: bool,
) -> ObjOut {
    let x = ObjCtx { error: 0, ..x };
    let lists = create_lists(kind, ex);
    match args_at(is_64bit, c, m, lists.0) {
        Err(f) => ObjOut { ctx: x, r: Err(f) },
        Ok(a) => match name_at(m, a.last(), wide) {
            Err(f) => ObjOut { ctx: x, r: Err(f) },
            Ok(name) => match args_at(is_64bit, c, m, lists.1) {
                Err(f) => ObjOut { ctx: x, r: Err(f) },
                Ok(b) => {
                    let made = object_made(x, name, object_asked(kind, ex, a, b, tid));
                    ObjOut { ctx: made.0, r: Ok(made.1) }
                },
            },
        },
    }
}

/// `OpenEvent`, `OpenMutex`, `OpenSemaphore` and `OpenWaitableTimer`.
#[verifier::opaque]
pub open spec fn open_sync_out(x: ObjCtx, is_64bit: bool, c: CpuView, m: MemView, wide: bool) -> ObjOut {
    match arg_at(is_64bit, c, m, 2) {
        Err(f) => ObjOut { ctx: x, r: Err(f) },
        Ok(p) => match name_at(m, p, wide) {
            Err(f) => ObjOut { ctx: x, r: Err(f) },
            Ok(name) => if name is Some && x.names.contains_key(name->0) {
                ObjOut { ctx: x, r: Ok(x.names[name->0]) }
            } else {
                ObjOut { ctx: ObjCtx { error: ERROR_NAME_NOT_FOUND, ..x }, r: Ok(0) }
            },
        },
    }
}

/// What signaling an object leads to.
pub struct SignalOut {
    pub objects: TableView,
    pub reply: Reply,
}

/// `SetEvent`, `ResetEvent`, `PulseEvent`, `ReleaseMutex` and
/// `ReleaseSemaphore`. An unknown handle is taken for done.
#[verifier::opaque]
pub open spec fn signal_out(
    t: TableView,
    tid: u32,
    is_64bit: bool,
    c: CpuView,
    m: MemView,
    op: SignalOp,
) -> SignalOut {
    let list = if op == SignalOp::ReleaseSemaphore {
        seq![0u64, 1, 2]
    } else {
        seq![0u64]
    };
    match args_at(is_64bit, c, m, list) {
        Err(f) => SignalOut { objects: t, reply: faulted(m, f) },
        Ok(a) => match t.obj(a[0]) {
            None => SignalOut { objects: t, reply: crate::call::answer(m, 1) },
            Some(o) => {
                let rel: i32 = if op == SignalOp::ReleaseSemaphore {
                    a[1] as i32
                } else {
                    0
                };
                let s = o.after(op, tid, rel);
                SignalOut {
                    objects: t.with_obj(a[0], s.obj),
                    reply: answer_after(
                        m.store_all(
                            if op == SignalOp::ReleaseSemaphore {
                                opt(s32(a[2], s.prev as u32))
                            } else {
                                seq![]
                            },
                        ),
                        if s.ok {
                            1
                        } else {
                            0
                        },
                    ),
                }
            },
        },
    }
}

/// What waiting leads to.
pub struct WaitOut {
    pub sched: SchedView,
    pub objects: TableView,
    pub cpu: CpuView,
    pub r: Result<Outcome, Fault>,
}

/// A wait that is not satisfied: it is over at once with a timeout of zero;
/// else the thread is blocked and another one goes on. Where no other thread
/// can run, the wait is taken for satisfied.
pub open spec fn waiting(
    v: SchedView,
    t: TableView,
    c: CpuView,
    w: WaitView,
    timeout: u32,
) -> WaitOut {
    if timeout == 0 {
        WaitOut { sched: v, objects: t, cpu: c, r: Ok(Outcome::Return(WAIT_TIMEOUT)) }
    } else {
        let s = switch_out(v, t, c, ThreadState::Blocked, Some(w));
        WaitOut {
            sched: s.sched,
            objects: t,
            cpu: s.cpu,
            r: Ok(
                if s.done {
                    Outcome::Resume
                } else {
                    Outcome::Return(WAIT_OBJECT_0)
                },
            ),
        }
    }
}

/// `WaitForSingleObject`.
#[verifier::opaque]
pub open spec fn wait_single_out(
    v: SchedView,
    t: TableView,
    is_64bit: bool,
    c: CpuView,
    m: MemView,
) -> WaitOut {
    match args_at(is_64bit, c, m, seq![0, 1]) {
        Err(f) => WaitOut { sched: v, objects: t, cpu: c, r: Err(f) },
        Ok(a) => {
            let h = a[0];
            if t.signaled(h, v.current_tid) {
                WaitOut {
                    sched: v,
                    objects: t.waited(h, v.current_tid),
                    cpu: c,
                    r: Ok(Outcome::Return(WAIT_OBJECT_0)),
                }
            } else {
                waiting(v, t, c, WaitView { handles: seq![h], all: true }, a[1] as u32)
            }
        },
    }
}

/// The first `n` handles of an array in guest memory.
pub open spec fn handles_at(is_64bit: bool, m: MemView, p: u64, n: nat) -> Result<Seq<u64>, Fault>
    decreases n,
{
    if n == 0 {
        Ok(Seq::empty())
    } else {
        let k = (n - 1) as nat;
        match handles_at(is_64bit, m, p, k) {
            Err(f) => Err(f),
            Ok(hs) => match m.rptr(is_64bit, ga(p, k * crate::cb::slot(is_64bit))) {
                Err(f) => Err(f),
                Ok(h) => Ok(hs.push(h)),
            },
        }
    }
}

/// Handles whose prefix faults are read no further.
proof fn lemma_handles_stop(is_64bit: bool, m: MemView, p: u64, k: nat, n: nat)
    requires
        k <= n,
        handles_at(is_64bit, m, p, k) is Err,
    ensures
        handles_at(is_64bit, m, p, n) == handles_at(is_64bit, m, p, k),
    decreases n - k,
{
    if k < n {
        lemma_handles_stop(is_64bit, m, p, k, (n - 1) as nat);
    }
}

/// Read an array of handles.
pub fn read_handles(is_64bit: bool, mem: &VirtualMemory, p: u64, n: u32) -> (r: Result<
    Vec<u64>,
    Fault,
>)
    ensures
        match r {
            Ok(hs) => handles_at(is_64bit, mem@, p, n as nat) == Ok::<Seq<u64>, Fault>(hs@),
            Err(f) => handles_at(is_64bit, mem@, p, n as nat) == Err::<Seq<u64>, Fault>(f),
        },
{
    let mut out: Vec<u64> = Vec::new();
    let stride: u64 = if is_64bit {
        8
    } else {
        4
    };
    let mut i: u32 = 0;
    assert(out@ =~= Seq::empty());
    while i < n
        invariant
            i <= n,
            stride == crate::cb::slot(is_64bit),
            handles_at(is_64bit, mem@, p, i as nat) == Ok::<Seq<u64>, Fault>(out@),
        decreases n - i,
    {
        assert(i * stride <= 0xFFFF_FFFF * 8) by (nonlinear_arith)
            requires
                0 <= i <= 0xFFFF_FFFF,
                0 <= stride <= 8,
        ;
        match mem.read_ptr(is_64bit, at(p, i as u64 * stride)) {
            Ok(h) => {
                out.push(h);
            },
            Err(f) => {
                proof {
                    lemma_handles_stop(is_64bit, mem@, p, (i + 1) as nat, n as nat);
                }
                return Err(f);
            },
        }
        i = i + 1;
    }
    Ok(out)
}

/// `WaitForMultipleObjects`: either every handle that the wait is for is consumed,
/// or none is.
#[verifier::opaque]
pub open spec fn wait_multiple_out(
    v: SchedView,
    t: TableView,
    is_64bit: bool,
    c: CpuView,
    m: MemView,
) -> WaitOut {
    match args_at(is_64bit, c, m, seq![0, 1, 2, 3]) {
        Err(f) => WaitOut { sched: v, objects: t, cpu: c, r: Err(f) },
        Ok(a) => match handles_at(is_64bit, m, a[1], (a[0] as u32) as nat) {
            Err(f) => WaitOut { sched: v, objects: t, cpu: c, r: Err(f) },
            Ok(hs) => {
                let tid = v.current_tid;
                let all = a[2] != 0;
                if !t.satisfiable(hs, all, tid) {
                    waiting(v, t, c, WaitView { handles: hs, all }, a[3] as u32)
                } else if all {
                    WaitOut {
                        sched: v,
                        objects: t.waited_all(hs, tid),
                        cpu: c,
                        r: Ok(Outcome::Return(WAIT_OBJECT_0)),
                    }
                } else {
                    let i = first_index(hs, t.signals(tid))->0;
                    WaitOut {
                        sched: v,
                        objects: t.waited(hs[i], tid),
                        cpu: c,
                        r: Ok(Outcome::Return((WAIT_OBJECT_0 + i) as u64)),
                    }
                }
            },
        },
    }
}

/// A new object under the next handle keeps every handle below the one after it.
pub proof fn lemma_new_below(t: TableView, next: u64, o: KObject)
    requires
        t.wf(),
        t.below(next),
        next <= u64::MAX - 4,
    ensures
        t.with_new(next, o).wf(),
        t.with_new(next, o).below((next + 4) as u64),
        t.with_new(next, o).obj(next) == Some(o),
{
    lemma_with_new_wf(t, next, o);
    let n = t.with_new(next, o);
    assert forall|h: u64| #[trigger] n.handles.contains_key(h) implies h < next + 4 by {
        if h != next {
            assert(t.handles.contains_key(h));
        }
    }
    assert forall|h: u64| #[trigger] n.objects.contains_key(h) implies h < next + 4 by {
        if h != next {
            assert(t.objects.contains_key(h));
        }
    }
}

/// A created object answers to its name until then unknown: opening the name
/// afterwards gives the handle that creating it gave.
pub proof fn lemma_open_finds_created(x: ObjCtx, name: Seq<char>, o: KObject)
    requires
        x.objects.wf(),
        x.objects.below(x.next),
        x.next <= u64::MAX - 4,
    ensures
        ({
            let made = object_made(x, Some(name), o);
            &&& made.0.names.contains_key(name)
            &&& made.0.names[name] == made.1
            &&& object_made(made.0, Some(name), o).1 == made.1
            &&& !x.names.contains_key(name) ==> made.0.objects.obj(made.1) == Some(o)
        }),
{
    if !x.names.contains_key(name) {
        lemma_new_below(x.objects, x.next, o);
    }
}

/// A wait that blocks or times out consumes nothing.
pub proof fn lemma_unsatisfied_consumes_nothing(
    v: SchedView,
    t: TableView,
    is_64bit: bool,
    c: CpuView,
    m: MemView,
)
    ensures
        ({
            let o = wait_single_out(v, t, is_64bit, c, m);
            o.r != Ok::<Outcome, Fault>(Outcome::Return(WAIT_OBJECT_0)) ==> o.objects == t
        }),
        ({
            let o = wait_multiple_out(v, t, is_64bit, c, m);
            o.r is Err || o.r == Ok::<Outcome, Fault>(Outcome::Resume) ==> o.objects == t
        }),
{
    reveal(wait_multiple_out);
    reveal(wait_single_out);
}

impl ObjectTable {
    /// The objects and their names, with what new handles come from.
    pub open spec fn ctx(self, next: u64, error: u32) -> ObjCtx {
        ObjCtx { objects: self@, names: self.names@, next, error }
    }

    /// Make an object, or open the one of that name again; returns its handle.
    pub fn make_object(
        &mut self,
        next: &mut u64,
        error: &mut u32,
        name: Option<String>,
        o: KObject,
    ) -> (h: u64)
        requires
            old(self)@.wf(),
            old(self)@.below(*old(next)),
            *old(next) <= u64::MAX - 4,
        ensures
            final(self)@.wf(),
            final(self)@.below(*final(next)),
            (final(self).ctx(*final(next), *final(error)), h) == object_made(
                old(self).ctx(*old(next), *old(error)),
                name_view(name),
                o,
            ),
    {
        if let Some(n) = &name {
            if let Some(h) = self.names.get(n.as_str()) {
                *error = ERROR_ALREADY_EXISTS;
                return *h;
            }
        }
        let h: u64 = *next;
        *next = h + 4;
        proof {
            lemma_new_below(self@, h, o);
        }
        self.add_object(h, o);
        if let Some(n) = name {
            let _prev = self.names.insert(n, h);
        }
        h
    }

    /// Serve a create call.
    pub fn create_sync(
        &mut self,
        next: &mut u64,
        error: &mut u32,
        tid: u32,
        is_64bit: bool,
        cpu: &CpuState,
        mem: &VirtualMemory,
        kind: SyncKind,
        ex: bool,
        wide: bool,
    ) -> (r: Result<u64, Fault>)
        requires
            old(self)@.wf(),
            old(self)@.below(*old(next)),
            *old(next) <= u64::MAX - 4,
        ensures
            final(self)@.wf(),
            final(self)@.below(*final(next)),
            (ObjOut { ctx: final(self).ctx(*final(next), *final(error)), r }) == create_sync_out(
                old(self).ctx(*old(next), *old(error)),
                tid,
                is_64bit,
                cpu@,
                mem@,
                kind,
                ex,
                wide,
            ),
    {
        proof {
            reveal(create_sync_out);
        }
        *error = 0;
        let mut first: Vec<u64> = vec![1];
        let mut rest: Vec<u64> = Vec::new();
        match (kind, ex) {
            (SyncKind::Event, false) | (SyncKind::Semaphore, _) => {
                first.push(2);
                first.push(3);
            },
            (SyncKind::Mutex, false) | (SyncKind::Timer, false) => {
                first.push(2);
            },
            _ => {
                rest.push(2);
            },
        }
        proof {
            let lists = create_lists(kind, ex);
            assert(first@ =~= lists.0);
            assert(rest@ =~= lists.1);
        }
        let a = match args(is_64bit, cpu, mem, &first) {
            Ok(a) => a,
            Err(f) => {
                return Err(f);
            },
        };
        let name = match read_name(mem, a[a.len() - 1], wide) {
            Ok(n) => n,
            Err(f) => {
                return Err(f);
            },
        };
        let b = match args(is_64bit, cpu, mem, &rest) {
            Ok(b) => b,
            Err(f) => {
                return Err(f);
            },
        };
        let o: KObject = match (kind, ex) {
            (SyncKind::Event, false) => KObject::create(kind, a[0] != 0, a[1] != 0, 0, 0, tid),
            (SyncKind::Event, true) => KObject::create(
                kind,
                b[0] & 1 != 0,
                b[0] & 2 != 0,
                0,
                0,
                tid,
            ),
            (SyncKind::Mutex, false) => KObject::create(kind, false, a[0] != 0, 0, 0, tid),
            (SyncKind::Mutex, true) => KObject::create(kind, false, b[0] & 1 != 0, 0, 0, tid),
            (SyncKind::Semaphore, _) => KObject::create(
                kind,
                false,
                false,
                a[0] as i32,
                a[1] as i32,
                tid,
            ),
            (SyncKind::Timer, false) => KObject::create(kind, a[0] != 0, false, 0, 0, tid),
            (SyncKind::Timer, true) => KObject::create(kind, b[0] & 2 != 0, false, 0, 0, tid),
        };
        Ok(self.make_object(next, error, name, o))
    }

    /// Serve an open call.
    pub fn open_sync(
        &self,
        error: &mut u32,
        is_64bit: bool,
        cpu: &CpuState,
        mem: &VirtualMemory,
        wide: bool,
    ) -> (r: Result<u64, Fault>)
        ensures
            forall|next: u64|
                (ObjOut { ctx: (#[trigger] self.ctx(next, *final(error))), r }) == open_sync_out(
                    self.ctx(next, *old(error)),
                    is_64bit,
                    cpu@,
                    mem@,
                    wide,
                ),
    {
        proof {
            reveal(open_sync_out);
        }
        let p: u64 = match crate::call::arg(is_64bit, cpu, mem, 2) {
            Ok(p) => p,
            Err(f) => {
                return Err(f);
            },
        };
        match read_name(mem, p, wide) {
            Err(f) => Err(f),
            Ok(name) => {
                if let Some(n) = name {
                    if let Some(h) = self.names.get(n.as_str()) {
                        return Ok(*h);
                    }
                }
                *error = ERROR_NAME_NOT_FOUND;
                Ok(0)
            },
        }
    }

    /// Serve a call that signals or releases.
    pub fn signal_sync(
        &mut self,
        tid: u32,
        is_64bit: bool,
        cpu: &CpuState,
        mem: &mut VirtualMemory,
        op: SignalOp,
    ) -> (r: Result<u64, Fault>)
        requires
            old(self)@.wf(),
        ensures
            final(self)@.wf(),
            forall|bound: u64|
                old(self)@.below(bound) ==> #[trigger] final(self)@.below(bound),
            final(self).names == old(self).names,
            ({
                let o = signal_out(old(self)@, tid, is_64bit, cpu@, old(mem)@, op);
                &&& final(self)@ == o.objects
                &&& final(mem)@ == o.reply.mem
                &&& r == o.reply.r
            }),
    {
        proof {
            reveal(signal_out);
        }
        let release: bool = match op {
            SignalOp::ReleaseSemaphore => true,
            _ => false,
        };
        let list: Vec<u64> = if release {
            vec![0, 1, 2]
        } else {
            vec![0]
        };
        assert(release ==> list@ =~= seq![0u64, 1, 2]);
        assert(!release ==> list@ =~= seq![0u64]);
        let a = match args(is_64bit, cpu, mem, &list) {
            Ok(a) => a,
            Err(f) => {
                return Err(f);
            },
        };
        let mut o: KObject = match self.get(a[0]) {
            Some(o) => o,
            None => {
                return Ok(1);
            },
        };
        let rel: i32 = if release {
            a[1] as i32
        } else {
            0
        };
        let (ok, prev) = o.signal(op, tid, rel);
        proof {
            assert forall|bound: u64| self@.below(bound) implies #[trigger] self@.with_obj(
                a@[0],
                o,
            ).below(bound) by {
                lemma_with_obj_wf(self@, a@[0], o, bound);
            }
        }
        self.set(a[0], o);
        let mut t: Vec<Store> = Vec::new();
        assert(t@ =~= seq![]);
        if release {
            push_opt(&mut t, store32(a[2], prev as u32));
            assert(t@ =~= opt(s32(a@[2], prev as u32)));
        }
        crate::ntreg::finish(
            mem,
            &t,
            if ok {
                1
            } else {
                0
            },
        )
    }
}

/// Give up on a wait that is not satisfied, or block on it.
fn wait_on(
    sched: &mut Scheduler,
    objects: &ObjectTable,
    cpu: &mut CpuState,
    desc: WaitDesc,
    timeout: u32,
) -> (r: Outcome)
    requires
        old(sched)@.wf(),
        objects@.wf(),
    ensures
        final(sched)@.wf(),
        ({
            let o = waiting(old(sched)@, objects@, old(cpu)@, desc@, timeout);
            &&& final(sched)@ == o.sched
            &&& final(cpu)@ == o.cpu
            &&& o.r == Ok::<Outcome, Fault>(r)
        }),
{
    if timeout == 0 {
        return Outcome::Return(WAIT_TIMEOUT);
    }
    if sched.block_and_switch(cpu, desc, objects) {
        Outcome::Resume
    } else {
        Outcome::Return(WAIT_OBJECT_0)
    }
}

/// Serve a wait on one object.
pub fn wait_single(
    sched: &mut Scheduler,
    objects: &mut ObjectTable,
    is_64bit: bool,
    cpu: &mut CpuState,
    mem: &VirtualMemory,
) -> (r: Result<Outcome, Fault>)
    requires
        old(sched)@.wf(),
        old(objects)@.wf(),
    ensures
        final(sched)@.wf(),
        final(objects)@.wf(),
        forall|bound: u64| old(objects)@.below(bound) ==> #[trigger] final(objects)@.below(bound),
        final(objects).names == old(objects).names,
        (WaitOut { sched: final(sched)@, objects: final(objects)@, cpu: final(cpu)@, r })
            == wait_single_out(old(sched)@, old(objects)@, is_64bit, old(cpu)@, mem@),
{
    proof {
        reveal(wait_single_out);
    }
    let list: Vec<u64> = vec![0, 1];
    assert(list@ =~= seq![0u64, 1]);
    let a = match args(is_64bit, cpu, mem, &list) {
        Ok(a) => a,
        Err(f) => {
            return Err(f);
        },
    };
    let h: u64 = a[0];
    if objects.is_signaled(h, sched.current_tid) {
        let _got = objects.acquire(h, sched.current_tid);
        return Ok(Outcome::Return(WAIT_OBJECT_0));
    }
    let handles: Vec<u64> = vec![h];
    assert(handles@ =~= seq![h]);
    Ok(wait_on(sched, objects, cpu, WaitDesc { handles, all: true }, a[1] as u32))
}

/// Serve a wait on several objects.
pub fn wait_multiple(
    sched: &mut Scheduler,
    objects: &mut ObjectTable,
    is_64bit: bool,
    cpu: &mut CpuState,
    mem: &VirtualMemory,
) -> (r: Result<Outcome, Fault>)
    requires
        old(sched)@.wf(),
        old(objects)@.wf(),
    ensures
        final(sched)@.wf(),
        final(objects)@.wf(),
        forall|bound: u64| old(objects)@.below(bound) ==> #[trigger] final(objects)@.below(bound),
        final(objects).names == old(objects).names,
        (WaitOut { sched: final(sched)@, objects: final(objects)@, cpu: final(cpu)@, r })
            == wait_multiple_out(old(sched)@, old(objects)@, is_64bit, old(cpu)@, mem@),
{
    proof {
        reveal(wait_multiple_out);
    }
    let list: Vec<u64> = vec![0, 1, 2, 3];
    assert(list@ =~= seq![0u64, 1, 2, 3]);
    let a = match args(is_64bit, cpu, mem, &list) {
        Ok(a) => a,
        Err(f) => {
            return Err(f);
        },
    };
    let hs = match read_handles(is_64bit, mem, a[1], a[0] as u32) {
        Ok(hs) => hs,
        Err(f) => {
            return Err(f);
        },
    };
    let all: bool = a[2] != 0;
    let tid: u32 = sched.current_tid;
    if all {
        if objects.wait_satisfiable(&hs, true, tid) {
            proof {
                assert forall|bound: u64| objects@.below(bound) implies
                    #[trigger] objects@.waited_all(hs@, tid).below(bound) by {
                    crate::server::lemma_waited_all_wf(objects@, hs@, tid, bound);
                }
            }
            objects.acquire_all(&hs, tid);
            return Ok(Outcome::Return(WAIT_OBJECT_0));
        }
    } else {
        if let Some(i) = objects.first_signaled(&hs, tid) {
            let _got = objects.acquire(hs[i], tid);
            return Ok(Outcome::Return(WAIT_OBJECT_0 + i as u64));
        }
    }
    Ok(wait_on(sched, objects, cpu, WaitDesc { handles: hs, all }, a[3] as u32))
}

} // verus!
