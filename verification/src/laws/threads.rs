//! Threads and the objects they wait for: who runs, who waits, and for how long.

use vstd::prelude::*;

use crate::api::Api;
use crate::call::{arg_at, args_at, Outcome};
use crate::cpu::{CpuView, Reg};
use crate::dispatch::dispatch_out;
use crate::host::HostReply;
use crate::kobj::{handles_at, name_at};
use crate::laws::{
    given, gives, lemma_read_1, lemma_read_2, lemma_read_3, lemma_read_4, lemma_read_list,
    lemma_told,
};
use crate::laws::served::{
    bound_create_sync, bound_create_thread, bound_exit_thread, bound_get_exit_code_thread,
    bound_open_sync, bound_post_thread_message, bound_resume_thread, bound_signal, bound_slot_alloc,
    bound_slot_free, bound_slot_get, bound_slot_set, bound_suspend_thread, bound_switch_to_thread,
    bound_terminate_thread, bound_wait_multiple, bound_wait_single, serves_sleep,
};
use crate::mem::{ga, Fault, MemView};
use crate::named::Named;
use crate::os::{is_free_slot, OsView};
use crate::sched::{lemma_next, lemma_switch_frame, PostedMsg, SchedView, ThreadState, WaitView};
use crate::sync::{KObject, SignalOp, SyncKind, TableView};
use crate::thread::{create_thread_out, reclaimed, spawn_out};
use crate::util::{first_index, lemma_first_index, lemma_first_index_is};

verus! {

// ---- waiting ----------------------------------------------------------------

/// Whether a wait for some handles is over for a thread: one of them is signaled, or all.
pub open spec fn over(t: TableView, hs: Seq<u64>, all: bool, tid: u32) -> bool {
    if all {
        forall|k: int| 0 <= k < hs.len() ==> t.signaled(#[trigger] hs[k], tid)
    } else {
        exists|k: int| 0 <= k < hs.len() && t.signaled(#[trigger] hs[k], tid)
    }
}

proof fn lemma_over(t: TableView, hs: Seq<u64>, all: bool, tid: u32)
    ensures
        t.satisfiable(hs, all, tid) == over(t, hs, all, tid),
{
    if !all {
        lemma_first_index(hs, t.signals(tid));
        match first_index(hs, t.signals(tid)) {
            Some(i) => {
                assert(t.signals(tid)(hs[i]));
                assert(t.signaled(hs[i], tid));
            },
            None => {
                assert forall|k: int| 0 <= k < hs.len() implies !t.signaled(
                    #[trigger] hs[k],
                    tid,
                ) by {
                    assert(!t.signals(tid)(hs[k]));
                }
            },
        }
    }
}

/// The handles that a wait names are the pointers of its array, one behind the other.
pub proof fn lemma_handles(is_64bit: bool, m: MemView, p: u64, n: nat, i: int)
    requires
        handles_at(is_64bit, m, p, n) is Ok,
    ensures
        handles_at(is_64bit, m, p, n)->Ok_0.len() == n,
        0 <= i < n ==> m.rptr(
            is_64bit,
            ga(
                p,
                if is_64bit {
                    8 * i
                } else {
                    4 * i
                },
            ),
        ) == Ok::<u64, Fault>(handles_at(is_64bit, m, p, n)->Ok_0[i]),
    decreases n,
{
    if n > 0 {
        lemma_handles(is_64bit, m, p, (n - 1) as nat, i);
    }
}

/// A thread that `WaitForMultipleObjects` blocks leaves the run to another one, keeps its
/// registers, and can run again in exactly those states of the objects in which its wait is
/// over: one of its handles is signaled for it, or all of them where it asked for all.
/// Nothing is consumed meanwhile.
pub proof fn lemma_blocks_until_over(
    v: OsView,
    c: CpuView,
    m: MemView,
    host: HostReply,
    a: Seq<u64>,
    ex: bool,
    hs: Seq<u64>,
    later: TableView,
)
    requires
        v.sched.wf(),
        given(v, c, m, a),
        a.len() == 4,
        handles_at(v.wide(), m, a[1], (a[0] as u32) as nat) == Ok::<Seq<u64>, Fault>(hs),
        !over(v.objects, hs, a[2] != 0, v.sched.current_tid),
        a[3] as u32 != 0,
        !v.sched.alone(v.objects),
    ensures
        ({
            let o = dispatch_out(v, Api::Bound(Named::WaitMultiple { ex }), c, m, host);
            let me = o.os.sched.threads[v.sched.current];
            &&& o.r == Ok::<Outcome, Fault>(Outcome::Resume)
            &&& o.os.objects == v.objects
            &&& o.mem == m
            &&& o.os.sched.current != v.sched.current
            &&& v.sched.threads[o.os.sched.current].runnable(v.objects)
            &&& o.cpu == v.sched.threads[o.os.sched.current].saved
            &&& me.saved == c
            &&& me.tid == v.sched.current_tid
            &&& me.runnable(later) <==> over(later, hs, a[2] != 0, v.sched.current_tid)
        }),
{
    reveal(crate::kobj::wait_multiple_out);
    bound_wait_multiple(v, c, m, host, ex);
    lemma_read_4(v, c, m, a, 0, 1, 2, 3);
    lemma_over(v.objects, hs, a[2] != 0, v.sched.current_tid);
    lemma_over(later, hs, a[2] != 0, v.sched.current_tid);
    lemma_switch_frame(
        v.sched,
        v.objects,
        c,
        ThreadState::Blocked,
        Some(WaitView { handles: hs, all: a[2] != 0 }),
    );
}

/// A wait that is over answers at once. A wait for any answers with the place of the first
/// handle that is signaled, and takes that one alone; a wait for all answers with 0 and takes
/// all of them. A wait that is not over and has no time answers that it timed out, and takes
/// none.
pub proof fn lemma_waits_for_many(
    v: OsView,
    c: CpuView,
    m: MemView,
    host: HostReply,
    a: Seq<u64>,
    ex: bool,
    hs: Seq<u64>,
    i: int,
)
    requires
        given(v, c, m, a),
        a.len() == 4,
        handles_at(v.wide(), m, a[1], (a[0] as u32) as nat) == Ok::<Seq<u64>, Fault>(hs),
        0 <= i < hs.len(),
    ensures
        ({
            let o = dispatch_out(v, Api::Bound(Named::WaitMultiple { ex }), c, m, host);
            let tid = v.sched.current_tid;
            let first = v.objects.signaled(hs[i], tid) && forall|k: int|
                0 <= k < i ==> !v.objects.signaled(#[trigger] hs[k], tid);
            &&& a[2] == 0 && first ==> gives(o, i as u64) && o.os.objects == v.objects.waited(
                hs[i],
                tid,
            ) && o.os.sched == v.sched
            &&& a[2] != 0 && over(v.objects, hs, true, tid) ==> gives(o, 0) && o.os.objects
                == v.objects.waited_all(hs, tid) && o.os.sched == v.sched
            &&& !over(v.objects, hs, a[2] != 0, tid) && a[3] as u32 == 0 ==> gives(o, 0x102)
                && o.os.objects == v.objects && o.os.sched == v.sched
        }),
{
    reveal(crate::kobj::wait_multiple_out);
    bound_wait_multiple(v, c, m, host, ex);
    lemma_read_4(v, c, m, a, 0, 1, 2, 3);
    let tid = v.sched.current_tid;
    lemma_over(v.objects, hs, a[2] != 0, tid);
    lemma_handles(v.wide(), m, a[1], (a[0] as u32) as nat, i);
    let p = v.objects.signals(tid);
    if v.objects.signaled(hs[i], tid) && forall|k: int|
        0 <= k < i ==> !v.objects.signaled(#[trigger] hs[k], tid) {
        assert forall|k: int| 0 <= k < i implies !p(#[trigger] hs[k]) by {
            assert(!v.objects.signaled(hs[k], tid));
        }
        lemma_first_index_is(hs, p, i);
    }
}

/// `WaitForSingleObject` answers at once and takes the object where it is signaled; else it
/// times out where it has no time, and else the thread is blocked until the object is
/// signaled.
pub proof fn lemma_waits_for_one(
    v: OsView,
    c: CpuView,
    m: MemView,
    host: HostReply,
    a: Seq<u64>,
    ex: bool,
    later: TableView,
)
    requires
        v.sched.wf(),
        given(v, c, m, a),
        a.len() == 2,
        !v.sched.alone(v.objects),
    ensures
        ({
            let o = dispatch_out(v, Api::Bound(Named::WaitSingle { ex }), c, m, host);
            let tid = v.sched.current_tid;
            let me = o.os.sched.threads[v.sched.current];
            &&& v.objects.signaled(a[0], tid) ==> gives(o, 0) && o.os.objects == v.objects.waited(
                a[0],
                tid,
            ) && o.os.sched == v.sched
            &&& !v.objects.signaled(a[0], tid) ==> o.os.objects == v.objects
            &&& !v.objects.signaled(a[0], tid) && a[1] as u32 == 0 ==> gives(o, 0x102) && o.os.sched
                == v.sched
            &&& !v.objects.signaled(a[0], tid) && a[1] as u32 != 0 ==> {
                &&& o.r == Ok::<Outcome, Fault>(Outcome::Resume)
                &&& o.os.sched.current != v.sched.current
                &&& me.saved == c
                &&& me.runnable(later) <==> later.signaled(a[0], tid)
            }
        }),
{
    reveal(crate::kobj::wait_single_out);
    bound_wait_single(v, c, m, host, ex);
    lemma_read_2(v, c, m, a, 0, 1);
    let hs = seq![a[0]];
    lemma_over(later, hs, true, v.sched.current_tid);
    assert(hs[0] == a[0]);
    lemma_switch_frame(
        v.sched,
        v.objects,
        c,
        ThreadState::Blocked,
        Some(WaitView { handles: hs, all: true }),
    );
}

/// How many turns away thread `j` is from the running one, of `n`.
pub open spec fn turns(v: SchedView, j: int) -> int {
    if j > v.current {
        j - v.current
    } else {
        j - v.current + v.threads.len()
    }
}

/// Threads take turns: of those that can run, the one that comes first behind the running one
/// is next.
pub proof fn lemma_takes_turns(v: SchedView, t: TableView, j: int)
    requires
        v.wf(),
        0 <= j < v.threads.len(),
        j != v.current,
        v.threads[j].runnable(t),
    ensures
        v.next(t) is Some,
        0 <= v.next(t)->0 < v.threads.len(),
        v.next(t)->0 != v.current,
        v.threads[v.next(t)->0].runnable(t),
        turns(v, v.next(t)->0) <= turns(v, j),
{
    let n = v.threads.len() as int;
    let s = turns(v, j);
    lemma_turn_of(v, s);
    assert(v.turn(s) == j);
    assert(v.can_run(t, s));
    let w = lemma_first_turn(v, t, s);
    lemma_next(v, t, w);
    lemma_turn_of(v, w);
}

proof fn lemma_turn_of(v: SchedView, s: int)
    requires
        v.wf(),
        1 <= s < v.threads.len(),
    ensures
        v.turn(s) == if v.current + s < v.threads.len() {
            v.current + s
        } else {
            v.current + s - v.threads.len()
        },
        turns(v, v.turn(s)) == s,
{
    let n = v.threads.len() as int;
    if v.current + s < n {
        vstd::arithmetic::div_mod::lemma_small_mod((v.current + s) as nat, n as nat);
    } else {
        vstd::arithmetic::div_mod::lemma_small_mod((v.current + s - n) as nat, n as nat);
        vstd::arithmetic::div_mod::lemma_mod_add_multiples_vanish(v.current + s - n, n);
    }
}

proof fn lemma_first_turn(v: SchedView, t: TableView, k: int) -> (s: int)
    requires
        1 <= k < v.threads.len(),
        v.can_run(t, k),
    ensures
        v.is_next(t, s),
        s <= k,
    decreases k,
{
    if forall|j: int| 1 <= j < k ==> !#[trigger] v.can_run(t, j) {
        k
    } else {
        let j = choose|j: int| 1 <= j < k && #[trigger] v.can_run(t, j);
        lemma_first_turn(v, t, j)
    }
}

// ---- objects ----------------------------------------------------------------

/// `SetEvent` makes an event signaled for every thread, and `ResetEvent` for none, whatever
/// handle of it they are given; no other object changes. Both answer with 1.
pub proof fn lemma_sets_event(
    v: OsView,
    c: CpuView,
    m: MemView,
    host: HostReply,
    h: u64,
    other: u64,
    tid: u32,
)
    requires
        v.objects.wf(),
        given(v, c, m, seq![h]),
        v.objects.obj(h) is Some,
        v.objects.obj(h)->0 is Event,
    ensures
        ({
            let s = dispatch_out(
                v,
                Api::Bound(Named::Signal { op: SignalOp::SetEvent }),
                c,
                m,
                host,
            );
            let r = dispatch_out(
                v,
                Api::Bound(Named::Signal { op: SignalOp::ResetEvent }),
                c,
                m,
                host,
            );
            &&& gives(s, 1)
            &&& gives(r, 1)
            &&& s.os.objects.signaled(h, tid)
            &&& !r.os.objects.signaled(h, tid)
            &&& v.objects.handles.contains_key(other) && v.objects.handles[other]
                != v.objects.handles[h] ==> s.os.objects.obj(other) == v.objects.obj(other)
                && r.os.objects.obj(other) == v.objects.obj(other)
            &&& s.os.sched == v.sched
        }),
{
    reveal(crate::kobj::signal_out);
    bound_signal(v, c, m, host, SignalOp::SetEvent);
    bound_signal(v, c, m, host, SignalOp::ResetEvent);
    lemma_read_1(v, c, m, seq![h], 0);
}

/// `CreateEvent` makes an event that resets itself or not, signaled or not, as asked for,
/// under a handle that none had; `CreateMutex` a mutex that its maker owns where that is asked
/// for.
pub proof fn lemma_creates_event(
    v: OsView,
    c: CpuView,
    m: MemView,
    host: HostReply,
    a: Seq<u64>,
    wide: bool,
    tid: u32,
    h: u64,
)
    requires
        v.objects.wf(),
        v.objects.below(v.next_handle),
        v.next_handle <= u64::MAX - 4,
        given(v, c, m, a),
        a.len() == 4,
        a[3] == 0,
        gives(
            dispatch_out(
                v,
                Api::Bound(Named::CreateSync { kind: SyncKind::Event, ex: false, wide }),
                c,
                m,
                host,
            ),
            h,
        ),
    ensures
        ({
            let o = dispatch_out(
                v,
                Api::Bound(Named::CreateSync { kind: SyncKind::Event, ex: false, wide }),
                c,
                m,
                host,
            );
            let t = o.os.objects;
            &&& !v.objects.handles.contains_key(h)
            &&& t.signaled(h, tid) <==> a[2] != 0
            &&& a[2] != 0 ==> (t.waited(h, tid).signaled(h, tid) <==> a[1] != 0)
        }),
{
    reveal(crate::kobj::create_sync_out);
    bound_create_sync(v, c, m, host, SyncKind::Event, false, wide);
    lemma_read_3(v, c, m, a, 1, 2, 3);
    assert(args_at(v.wide(), c, m, seq![]) == Ok::<Seq<u64>, Fault>(Seq::empty()));
    if v.objects.handles.contains_key(v.next_handle) {
        assert(v.next_handle < v.next_handle);
    }
}

/// A mutex that is made owned belongs to its maker, one that is not to nobody; a semaphore
/// lets as many waits through as it was made with.
pub proof fn lemma_creates_mutex(
    v: OsView,
    c: CpuView,
    m: MemView,
    host: HostReply,
    a: Seq<u64>,
    wide: bool,
    other: u32,
    h: u64,
    g: u64,
)
    requires
        given(v, c, m, a),
        a.len() == 4,
        a[2] == 0,
        a[3] == 0,
        other != v.sched.current_tid,
        gives(
            dispatch_out(
                v,
                Api::Bound(Named::CreateSync { kind: SyncKind::Mutex, ex: false, wide }),
                c,
                m,
                host,
            ),
            h,
        ),
    ensures
        ({
            let o = dispatch_out(
                v,
                Api::Bound(Named::CreateSync { kind: SyncKind::Mutex, ex: false, wide }),
                c,
                m,
                host,
            );
            let t = o.os.objects;
            &&& t.signaled(h, v.sched.current_tid)
            &&& t.signaled(h, other) <==> a[1] == 0
        }),
{
    reveal(crate::kobj::create_sync_out);
    bound_create_sync(v, c, m, host, SyncKind::Mutex, false, wide);
    lemma_read_2(v, c, m, a, 1, 2);
    assert(args_at(v.wide(), c, m, seq![]) == Ok::<Seq<u64>, Fault>(Seq::empty()));
}

/// `OpenEvent` and its like give the handle of the object of that name, and 0 where there is
/// none.
pub proof fn lemma_opens_object(
    v: OsView,
    c: CpuView,
    m: MemView,
    host: HostReply,
    a: Seq<u64>,
    wide: bool,
    name: Seq<char>,
)
    requires
        given(v, c, m, a),
        a.len() == 3,
        name_at(m, a[2], wide) == Ok::<Option<Seq<char>>, Fault>(Some(name)),
    ensures
        ({
            let o = dispatch_out(v, Api::Bound(Named::OpenSync { wide }), c, m, host);
            &&& v.names.contains_key(name) ==> gives(o, v.names[name])
            &&& !v.names.contains_key(name) ==> gives(o, 0) && o.os.last_error == 2
            &&& o.os.objects == v.objects
        }),
{
    reveal(crate::kobj::open_sync_out);
    bound_open_sync(v, c, m, host, wide);
    assert(arg_at(v.wide(), c, m, 2) == Ok::<u64, Fault>(a[2]));
}

/// `ReleaseSemaphore` adds to the count and tells what it was; it refuses to pass the
/// largest.
pub proof fn lemma_releases_semaphore(
    v: OsView,
    c: CpuView,
    m: MemView,
    host: HostReply,
    a: Seq<u64>,
    count: i32,
    max: i32,
)
    requires
        given(v, c, m, a),
        a.len() == 3,
        v.objects.obj(a[0]) == Some(KObject::Semaphore { count, max }),
        0 <= count <= max,
        0 <= a[1] <= 0x7fff_ffff,
        a[2] != 0,
        m.can_read(a[2] as int, 4),
        dispatch_out(
            v,
            Api::Bound(Named::Signal { op: SignalOp::ReleaseSemaphore }),
            c,
            m,
            host,
        ).r is Ok,
        0 < max,
    ensures
        ({
            let o = dispatch_out(
                v,
                Api::Bound(Named::Signal { op: SignalOp::ReleaseSemaphore }),
                c,
                m,
                host,
            );
            &&& count + a[1] <= max ==> gives(o, 1) && o.os.objects.obj(a[0]) == Some(
                KObject::Semaphore { count: (count + a[1]) as i32, max },
            )
            &&& count + a[1] > max ==> gives(o, 0) && o.os.objects.obj(a[0]) == v.objects.obj(a[0])
            &&& o.mem.r32(a[2]) == Ok::<u32, Fault>(count as u32)
        }),
{
    reveal(crate::kobj::signal_out);
    bound_signal(v, c, m, host, SignalOp::ReleaseSemaphore);
    lemma_read_3(v, c, m, a, 0, 1, 2);
    let x = a[1];
    assert(x <= 0x7fff_ffff ==> x as i32 == x) by (bit_vector);
    lemma_told(m, a[2], count as u32);
}

// ---- threads ----------------------------------------------------------------

/// `SuspendThread` and `ResumeThread` answer with how often the thread was suspended before;
/// a thread that is suspended does not run, and one that is resumed as often does.
pub proof fn lemma_suspends(
    v: OsView,
    c: CpuView,
    m: MemView,
    host: HostReply,
    h: u64,
    i: int,
    t: TableView,
)
    requires
        given(v, c, m, seq![h]),
        v.sched.by_handle(h) == Some(i),
        0 <= i < v.sched.threads.len(),
        i != v.sched.current,
        v.sched.threads[i].state == ThreadState::Ready,
        v.sched.threads[i].suspend_count == 0,
    ensures
        ({
            let o = dispatch_out(v, Api::Bound(Named::SuspendThread), c, m, host);
            let x = o.os.sched.threads[i];
            &&& gives(o, 0)
            &&& x.suspend_count == 1
            &&& !x.runnable(t)
            &&& o.os.sched.threads.len() == v.sched.threads.len()
        }),
{
    reveal(crate::thread::count_out);
    bound_suspend_thread(v, c, m, host);
    assert(seq![h][0] == h);
}

/// The same, for a thread that is suspended once.
pub proof fn lemma_resumes(
    v: OsView,
    c: CpuView,
    m: MemView,
    host: HostReply,
    h: u64,
    i: int,
    t: TableView,
)
    requires
        given(v, c, m, seq![h]),
        v.sched.by_handle(h) == Some(i),
        0 <= i < v.sched.threads.len(),
        v.sched.threads[i].state == ThreadState::Suspended,
        0 < v.sched.threads[i].suspend_count,
    ensures
        ({
            let o = dispatch_out(v, Api::Bound(Named::ResumeThread), c, m, host);
            let x = o.os.sched.threads[i];
            let n = v.sched.threads[i].suspend_count;
            &&& gives(o, n as u64)
            &&& x.suspend_count == n - 1
            &&& x.runnable(t) <==> n == 1
        }),
{
    reveal(crate::thread::count_out);
    bound_resume_thread(v, c, m, host);
    assert(seq![h][0] == h);
}

/// `GetExitCodeThread` tells what a thread ended with, and 259 while it has not.
pub proof fn lemma_tells_exit_code(
    v: OsView,
    c: CpuView,
    m: MemView,
    host: HostReply,
    a: Seq<u64>,
    i: int,
)
    requires
        given(v, c, m, a),
        a.len() == 2,
        v.sched.by_handle(a[0]) == Some(i),
        a[1] != 0,
        m.can_read(a[1] as int, 4),
        dispatch_out(v, Api::Bound(Named::GetExitCodeThread), c, m, host).r is Ok,
    ensures
        ({
            let o = dispatch_out(v, Api::Bound(Named::GetExitCodeThread), c, m, host);
            let t = v.sched.threads[i];
            &&& gives(o, 1)
            &&& t.state == ThreadState::Terminated ==> o.mem.r32(a[1]) == Ok::<u32, Fault>(
                t.exit_code,
            )
            &&& t.state != ThreadState::Terminated ==> o.mem.r32(a[1]) == Ok::<u32, Fault>(259)
        }),
{
    reveal(crate::thread::exit_code_out);
    bound_get_exit_code_thread(v, c, m, host);
    lemma_read_2(v, c, m, a, 0, 1);
    if v.sched.threads[i].state == ThreadState::Terminated {
        lemma_told(m, a[1], v.sched.threads[i].exit_code);
    } else {
        lemma_told(m, a[1], 259);
    }
}

/// A slot that a thread sets gives the value back to that thread, in its own kind of slots,
/// and leaves every other slot and every other thread as they were.
pub proof fn lemma_slots(
    v: OsView,
    c: CpuView,
    m: MemView,
    host: HostReply,
    fiber: bool,
    a: Seq<u64>,
    d: CpuView,
    n: MemView,
    k: u64,
)
    requires
        v.sched.wf(),
        given(v, c, m, a),
        a.len() == 2,
        given(v, d, n, seq![k]),
    ensures
        ({
            let o = dispatch_out(v, Api::Bound(Named::SlotSet { fiber }), c, m, host);
            let p = dispatch_out(o.os, Api::Bound(Named::SlotGet { fiber }), d, n, host);
            let q = dispatch_out(v, Api::Bound(Named::SlotGet { fiber }), d, n, host);
            let r = dispatch_out(o.os, Api::Bound(Named::SlotGet { fiber: !fiber }), d, n, host);
            let s = dispatch_out(v, Api::Bound(Named::SlotGet { fiber: !fiber }), d, n, host);
            &&& gives(o, 1)
            &&& k == a[0] ==> gives(p, a[1])
            &&& k != a[0] ==> p.r == q.r
            &&& r.r == s.r
        }),
{
    reveal(crate::bound::slot_get_out);
    reveal(crate::bound::slot_set_out);
    bound_slot_set(v, c, m, host, fiber);
    lemma_read_2(v, c, m, a, 0, 1);
    let o = dispatch_out(v, Api::Bound(Named::SlotSet { fiber }), c, m, host);
    bound_slot_get(o.os, d, n, host, fiber);
    bound_slot_get(v, d, n, host, fiber);
    bound_slot_get(o.os, d, n, host, !fiber);
    bound_slot_get(v, d, n, host, !fiber);
    assert(seq![k][0] == k);
    assert(given(o.os, d, n, seq![k]));
    assert(arg_at(v.wide(), d, n, 0) == Ok::<u64, Fault>(seq![k][0]));
}

proof fn lemma_spawned(
    v: OsView,
    m: MemView,
    req: u64,
    entry: u64,
    param: u64,
    suspended: bool,
    h: u64,
    id: u32,
    t: TableView,
    tid: u32,
)
    requires
        v.wide(),
        !v.announces(),
        spawn_out(v, m, req, entry, param, suspended).r == Ok::<Option<(u64, u32)>, Fault>(
            Some((h, id)),
        ),
    ensures
        ({
            let w = spawn_out(v, m, req, entry, param, suspended).os;
            let n = v.sched.threads.len() as int;
            let x = w.sched.threads[n];
            &&& id == v.sched.next_tid
            &&& w.sched.threads.len() == n + 1
            &&& h == v.next_handle
            &&& w.next_handle == (h + 4) as u64
            &&& x.handle == h
            &&& x.tid == v.sched.next_tid
            &&& w.sched.current == v.sched.current
            &&& !w.objects.signaled(h, tid)
            &&& x.saved.rip == entry
            &&& x.saved.reg(Reg::Rcx) == param
            &&& x.saved.gs_base == x.teb_base
            &&& x.runnable(t) <==> !suspended
            &&& x.suspend_count == if suspended {
                1u32
            } else {
                0
            }
            &&& forall|i: int| 0 <= i < n ==> #[trigger] w.sched.threads[i] == v.sched.threads[i]
        }),
{
}

proof fn lemma_create_made(v: OsView, c: CpuView, m: MemView, a: Seq<u64>, h: u64) -> (id: u32)
    requires
        a.len() == 6,
        args_at(v.wide(), c, m, seq![1, 2, 3, 4, 5]) == Ok::<Seq<u64>, Fault>(
            seq![a[1], a[2], a[3], a[4], a[5]],
        ),
        create_thread_out(v, c, m).r == Ok::<u64, Fault>(h),
        h != 0,
    ensures
        spawn_out(v, m, a[1], a[2], a[3], a[4] & 4 != 0).r == Ok::<Option<(u64, u32)>, Fault>(
            Some((h, id)),
        ),
        create_thread_out(v, c, m).os == spawn_out(v, m, a[1], a[2], a[3], a[4] & 4 != 0).os,
{
    reveal(crate::thread::create_thread_out);
    let s = spawn_out(v, m, a[1], a[2], a[3], a[4] & 4 != 0);
    let made = s.r->Ok_0->0;
    made.1
}

proof fn lemma_create_args(v: OsView, c: CpuView, m: MemView, a: Seq<u64>)
    requires
        given(v, c, m, a),
        a.len() == 6,
    ensures
        args_at(v.wide(), c, m, seq![1, 2, 3, 4, 5]) == Ok::<Seq<u64>, Fault>(
            seq![a[1], a[2], a[3], a[4], a[5]],
        ),
{
    lemma_read_list(v, c, m, a, seq![1, 2, 3, 4, 5], seq![a[1], a[2], a[3], a[4], a[5]]);
}

/// `CreateThread` adds one thread, with a handle and an id that none had, whose object is not
/// signaled. In 64-bit code it starts at the routine with the parameter in its first
/// argument, on a stack of its own; it is ready at once unless it is to be suspended.
pub proof fn lemma_creates_thread(
    v: OsView,
    c: CpuView,
    m: MemView,
    host: HostReply,
    runtime: bool,
    a: Seq<u64>,
    h: u64,
    t: TableView,
    tid: u32,
)
    requires
        v.wide(),
        !v.announces(),
        given(v, c, m, a),
        a.len() == 6,
        gives(dispatch_out(v, Api::Bound(Named::CreateThread { runtime }), c, m, host), h),
        h != 0,
    ensures
        ({
            let w = dispatch_out(v, Api::Bound(Named::CreateThread { runtime }), c, m, host).os;
            let n = v.sched.threads.len() as int;
            let x = w.sched.threads[n];
            &&& w.sched.threads.len() == n + 1
            &&& h == v.next_handle
            &&& w.next_handle == (h + 4) as u64
            &&& x.handle == h
            &&& x.tid == v.sched.next_tid
            &&& w.sched.current == v.sched.current
            &&& !w.objects.signaled(h, tid)
            &&& x.saved.rip == a[2]
            &&& x.saved.reg(Reg::Rcx) == a[3]
            &&& x.saved.gs_base == x.teb_base
            &&& x.runnable(t) <==> a[4] & 4 == 0
            &&& x.suspend_count == if a[4] & 4 != 0 {
                1u32
            } else {
                0
            }
            &&& forall|i: int| 0 <= i < n ==> #[trigger] w.sched.threads[i] == v.sched.threads[i]
        }),
{
    reveal(crate::thread::create_thread_out);
    bound_create_thread(v, c, m, host, runtime);
    lemma_create_args(v, c, m, a);
    let id = lemma_create_made(v, c, m, a, h);
    lemma_spawned(v, m, a[1], a[2], a[3], a[4] & 4 != 0, h, id, t, tid);
}

/// `ExitThread` ends the running thread for good: its object is signaled for every thread
/// from then on, it does not run again, and its code is kept.
pub proof fn lemma_exits_thread(
    v: OsView,
    c: CpuView,
    m: MemView,
    host: HostReply,
    runtime: bool,
    code: u64,
    t: TableView,
    tid: u32,
)
    requires
        v.sched.wf(),
        v.objects.wf(),
        given(v, c, m, seq![code]),
        !v.sched.alone(v.objects),
        v.objects.obj(v.sched.me().handle) == Some(KObject::Thread { exited: false }),
    ensures
        ({
            let o = dispatch_out(v, Api::Bound(Named::ExitThread { runtime }), c, m, host);
            let w = v.ended(v.sched.current, code as u32);
            &&& w.objects.signaled(v.sched.me().handle, tid)
            &&& !w.sched.me().runnable(t)
            &&& w.sched.me().exit_code == code as u32
            &&& o == w.moved_on(c, reclaimed(m, v.sched.me()), code as u32)
        }),
{
    reveal(crate::thread::exit_thread_out);
    bound_exit_thread(v, c, m, host, runtime);
    assert(seq![code][0] == code);
}

/// What a wait finds and what it takes: an event or a timer that resets itself wakes one
/// waiter, the others keep their state; a semaphore wakes as many as it counts; a mutex
/// belongs to its taker, who may take it again while nobody else can; a thread that ended
/// stays ended.
pub proof fn lemma_wait_takes(o: KObject, tid: u32, other: u32)
    ensures
        !o.signaled(tid) ==> o.waited(tid) == o,
        match o {
            KObject::Event { manual_reset, signaled } => {
                &&& o.signaled(tid) <==> signaled
                &&& manual_reset ==> o.waited(tid) == o
                &&& !manual_reset ==> !o.waited(tid).signaled(other)
            },
            KObject::Timer { manual_reset, signaled } => {
                &&& o.signaled(tid) <==> signaled
                &&& manual_reset ==> o.waited(tid) == o
                &&& !manual_reset ==> !o.waited(tid).signaled(other)
            },
            KObject::Semaphore { count, max } => {
                &&& o.signaled(tid) <==> count >= 1
                &&& count >= 1 ==> o.waited(tid) == (KObject::Semaphore {
                    count: (count - 1) as i32,
                    max,
                })
            },
            KObject::Mutex { owner, recursion } => {
                &&& owner is None ==> o.signaled(tid)
                &&& o.signaled(tid) ==> o.waited(tid).signaled(tid)
                &&& o.signaled(tid) && other != tid ==> !o.waited(tid).signaled(other)
                &&& owner == Some(other) && other != tid ==> !o.signaled(tid)
            },
            KObject::Thread { exited } => {
                &&& o.signaled(tid) <==> exited
                &&& o.waited(tid) == o
            },
        },
{
}

/// `TerminateThread` ends another thread for good: its object is signaled for every thread
/// from then on, it does not run again, and `GetExitCodeThread` tells the code it was given;
/// the running thread and every other go on as they were.
pub proof fn lemma_terminates(
    v: OsView,
    c: CpuView,
    m: MemView,
    host: HostReply,
    a: Seq<u64>,
    i: int,
    t: TableView,
    tid: u32,
    j: int,
)
    requires
        v.sched.wf(),
        v.objects.wf(),
        given(v, c, m, a),
        a.len() == 2,
        v.sched.by_handle(a[0]) == Some(i),
        0 <= i < v.sched.threads.len(),
        i != v.sched.current,
        v.objects.obj(v.sched.threads[i].handle) == Some(KObject::Thread { exited: false }),
    ensures
        ({
            let o = dispatch_out(v, Api::Bound(Named::TerminateThread), c, m, host);
            let s = o.os.sched.threads;
            &&& gives(o, 1)
            &&& o.os.objects.signaled(v.sched.threads[i].handle, tid)
            &&& !s[i].runnable(t)
            &&& s[i].state == ThreadState::Terminated
            &&& s[i].exit_code == a[1] as u32
            &&& o.cpu == c
            &&& s.len() == v.sched.threads.len()
            &&& 0 <= j < s.len() && j != i ==> s[j] == v.sched.threads[j]
            &&& o.os.sched.current == v.sched.current
        }),
{
    reveal(crate::thread::terminate_thread_out);
    bound_terminate_thread(v, c, m, host);
    lemma_read_2(v, c, m, a, 0, 1);
}

/// `PostThreadMessage` puts the message behind those that wait for the thread of that
/// number, for no window, and leaves the queues of the others.
pub proof fn lemma_posts_to_thread(
    v: OsView,
    c: CpuView,
    m: MemView,
    host: HostReply,
    a: Seq<u64>,
    i: int,
    j: int,
)
    requires
        v.sched.wf(),
        given(v, c, m, a),
        a.len() == 4,
        v.sched.by_tid(a[0] as u32) == Some(i),
        0 <= i < v.sched.threads.len(),
        a[1] as u32 != 0x12,
    ensures
        ({
            let o = dispatch_out(v, Api::Bound(Named::PostThreadMessage), c, m, host);
            let s = o.os.sched.threads;
            &&& gives(o, 1)
            &&& s[i].msgs == v.sched.threads[i].msgs.push(
                PostedMsg { hwnd: 0, message: a[1] as u32, wparam: a[2], lparam: a[3] },
            )
            &&& 0 <= j < s.len() && j != i ==> s[j] == v.sched.threads[j]
        }),
{
    reveal(crate::msg::post_thread_out);
    bound_post_thread_message(v, c, m, host);
    lemma_read_4(v, c, m, a, 0, 1, 2, 3);
}

/// `TlsAlloc` and `FlsAlloc` hand out a slot that nobody has, which reads as 0, and mark it as
/// taken; `TlsFree` and `FlsFree` give it back. No other slot changes hands.
pub proof fn lemma_slot_handed_out(
    v: OsView,
    c: CpuView,
    m: MemView,
    host: HostReply,
    fiber: bool,
    d: CpuView,
    n: MemView,
    x: u64,
    j: int,
)
    requires
        v.sched.wf(),
        v.used(fiber).len() < 0x1_0000_0000,
        dispatch_out(v, Api::Bound(Named::SlotAlloc { fiber }), c, m, host).r == Ok::<
            Outcome,
            Fault,
        >(Outcome::Return(x)),
        given(v, d, n, seq![x]),
    ensures
        ({
            let o = dispatch_out(v, Api::Bound(Named::SlotAlloc { fiber }), c, m, host);
            let was = v.used(fiber);
            let is = o.os.used(fiber);
            let f = dispatch_out(o.os, Api::Bound(Named::SlotFree { fiber }), d, n, host);
            &&& x < was.len() ==> !was[x as int]
            &&& x < is.len() && is[x as int]
            &&& 0 <= j < was.len() && j != x ==> is[j] == was[j]
            &&& o.os.used(!fiber) == v.used(!fiber)
            &&& gives(dispatch_out(o.os, Api::Bound(Named::SlotGet { fiber }), d, n, host), 0)
            &&& gives(f, 1)
            &&& !f.os.used(fiber)[x as int]
            &&& 0 <= j < was.len() && j != x ==> f.os.used(fiber)[j] == was[j]
        }),
{
    reveal(crate::bound::slot_free_out);
    reveal(crate::bound::slot_get_out);
    bound_slot_alloc(v, c, m, host, fiber);
    lemma_first_index(v.used(fiber), is_free_slot());
    let o = dispatch_out(v, Api::Bound(Named::SlotAlloc { fiber }), c, m, host);
    assert(o.os.wide() == v.wide());
    bound_slot_get(o.os, d, n, host, fiber);
    bound_slot_free(o.os, d, n, host, fiber);
    assert(seq![x][0] == x);
    assert(arg_at(v.wide(), d, n, 0) == Ok::<u64, Fault>(seq![x][0]));
}

/// `Sleep` and `SwitchToThread` hand the processor to the thread whose turn it is, where
/// another can run, as that thread left it; the caller stays ready and finds its answer and
/// its return address when its turn comes.
pub proof fn lemma_yields(v: OsView, c: CpuView, m: MemView, host: HostReply, ret: u64, j: int)
    requires
        v.wide(),
        v.sched.wf(),
        c.gpr.len() == 16,
        m.r64(c.rsp()) == Ok::<u64, Fault>(ret),
        v.sched.next(v.objects) == Some(j),
        0 <= j < v.sched.threads.len(),
        j != v.sched.current,
    ensures
        ({
            let o = dispatch_out(v, Api::Sleep, c, m, host);
            let s = dispatch_out(v, Api::Bound(Named::SwitchToThread), c, m, host);
            let i = v.sched.current;
            let me = o.os.sched.threads[i];
            let t = s.os.sched.threads[i];
            &&& o.os.sched.current == j && s.os.sched.current == j
            &&& o.cpu == v.sched.threads[j].saved && s.cpu == v.sched.threads[j].saved
            &&& o.r == Ok::<Outcome, Fault>(Outcome::Resume) && o.r == s.r
            &&& me.state == ThreadState::Ready && t.state == ThreadState::Ready
            &&& me.saved.rip == ret && t.saved.rip == ret
            &&& me.saved.reg(Reg::Rax) == 0 && t.saved.reg(Reg::Rax) == 1
            &&& o.os.sched.threads[j].state == ThreadState::Running
        }),
{
    serves_sleep(v, c, m, host);
    bound_switch_to_thread(v, c, m, host);
}

/// `ReleaseMutex` by its owner gives back one taking: the last one frees the mutex for every
/// thread, each one before leaves it with its owner. Whoever does not own it is answered with
/// 0, and nothing changes.
pub proof fn lemma_releases_mutex(
    v: OsView,
    c: CpuView,
    m: MemView,
    host: HostReply,
    h: u64,
    owner: Option<u32>,
    recursion: u32,
    tid: u32,
)
    requires
        v.objects.wf(),
        given(v, c, m, seq![h]),
        v.objects.obj(h) == Some(KObject::Mutex { owner, recursion }),
    ensures
        ({
            let o = dispatch_out(
                v,
                Api::Bound(Named::Signal { op: SignalOp::ReleaseMutex }),
                c,
                m,
                host,
            );
            let me = v.sched.current_tid;
            &&& owner == Some(me) && recursion == 1 ==> gives(o, 1) && o.os.objects.signaled(h, tid)
            &&& owner == Some(me) && recursion > 1 ==> gives(o, 1) && o.os.objects.obj(h) == Some(
                KObject::Mutex { owner, recursion: (recursion - 1) as u32 },
            )
            &&& owner != Some(me) ==> gives(o, 0) && o.os.objects.obj(h) == v.objects.obj(h)
        }),
{
    reveal(crate::kobj::signal_out);
    bound_signal(v, c, m, host, SignalOp::ReleaseMutex);
    lemma_read_1(v, c, m, seq![h], 0);
}

} // verus!
