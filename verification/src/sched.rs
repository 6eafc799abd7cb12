//! The cooperative scheduler: guest threads, whose turn it is, and what each
//! keeps for itself.

use vstd::prelude::*;

use std::collections::HashMap;

use crate::cpu::{CpuState, CpuView};
use crate::sync::{ObjectTable, TableView};

verus! {

broadcast use vstd::std_specs::hash::group_hash_axioms;

/// The exit code of a thread that has not exited.
pub const STILL_ACTIVE: u32 = 259;

/// The id of the main thread.
pub const MAIN_TID: u32 = 0x1001;

/// Instructions between preemptive yields.
pub const TIMESLICE: u64 = 50_000;

#[derive(Clone, Copy, Debug, PartialEq, Eq, Structural)]
pub enum ThreadState {
    Ready,
    Running,
    Blocked,
    Suspended,
    Terminated,
}

/// What a blocked thread waits for.
pub struct WaitDesc {
    pub handles: Vec<u64>,
    /// All of the handles, or any.
    pub all: bool,
}

/// What a blocked thread waits for, as mathematics.
pub struct WaitView {
    pub handles: Seq<u64>,
    pub all: bool,
}

impl View for WaitDesc {
    type V = WaitView;

    open spec fn view(&self) -> WaitView {
        WaitView { handles: self.handles@, all: self.all }
    }
}

/// A queued window message.
#[derive(Clone, Copy, Debug, PartialEq, Eq, Structural)]
pub struct PostedMsg {
    pub hwnd: u64,
    pub message: u32,
    pub wparam: u64,
    pub lparam: u64,
}

/// One guest thread.
pub struct Thread {
    pub tid: u32,
    /// The handle of its thread object; 0 for the main thread.
    pub handle: u64,
    pub state: ThreadState,
    /// Its registers, valid while it does not run.
    pub saved: CpuState,
    pub exit_code: u32,
    /// Its own stack; 0 where the application owns it.
    pub stack_base: u64,
    pub stack_size: u64,
    /// Its thread environment block.
    pub teb_base: u64,
    /// The same, where the thread owns it; else 0.
    pub teb_owned: u64,
    pub suspend_count: u32,
    pub wait: Option<WaitDesc>,
    pub tls: HashMap<u64, u64>,
    pub fls: HashMap<u64, u64>,
    /// Its message queue.
    pub msgs: Vec<PostedMsg>,
    /// A posted quit, delivered once the queue is empty.
    pub quit_code: Option<i32>,
    /// The start routine and parameter to seat after attach callbacks.
    pub pending_entry: Option<(u64, u64)>,
}

/// A thread as mathematics.
#[verifier::ext_equal]
pub struct ThreadView {
    pub tid: u32,
    pub handle: u64,
    pub state: ThreadState,
    pub saved: CpuView,
    pub exit_code: u32,
    pub stack_base: u64,
    pub stack_size: u64,
    pub teb_base: u64,
    pub teb_owned: u64,
    pub suspend_count: u32,
    pub wait: Option<WaitView>,
    pub tls: Map<u64, u64>,
    pub fls: Map<u64, u64>,
    pub msgs: Seq<PostedMsg>,
    pub quit_code: Option<i32>,
    pub pending_entry: Option<(u64, u64)>,
}

/// The view of an optional wait.
pub open spec fn wait_view(w: Option<WaitDesc>) -> Option<WaitView> {
    match w {
        Some(d) => Some(d@),
        None => None,
    }
}

impl View for Thread {
    type V = ThreadView;

    open spec fn view(&self) -> ThreadView {
        ThreadView {
            tid: self.tid,
            handle: self.handle,
            state: self.state,
            saved: self.saved@,
            exit_code: self.exit_code,
            stack_base: self.stack_base,
            stack_size: self.stack_size,
            teb_base: self.teb_base,
            teb_owned: self.teb_owned,
            suspend_count: self.suspend_count,
            wait: wait_view(self.wait),
            tls: self.tls@,
            fls: self.fls@,
            msgs: self.msgs@,
            quit_code: self.quit_code,
            pending_entry: self.pending_entry,
        }
    }
}

impl ThreadView {
    /// Whether the thread can run: it is ready, or its wait is satisfied.
    pub open spec fn runnable(self, t: TableView) -> bool {
        match self.state {
            ThreadState::Ready => true,
            ThreadState::Blocked => match self.wait {
                Some(w) => t.satisfiable(w.handles, w.all, self.tid),
                None => true,
            },
            _ => false,
        }
    }

    /// The main thread before it has run.
    pub open spec fn first(tid: u32) -> ThreadView {
        ThreadView {
            tid,
            handle: 0,
            state: ThreadState::Running,
            saved: CpuView::fresh(),
            exit_code: STILL_ACTIVE,
            stack_base: 0,
            stack_size: 0,
            teb_base: 0,
            teb_owned: 0,
            suspend_count: 0,
            wait: None,
            tls: Map::empty(),
            fls: Map::empty(),
            msgs: Seq::empty(),
            quit_code: None,
            pending_entry: None,
        }
    }
}

impl Thread {
    /// The main thread: running, with nothing of its own.
    pub fn main(tid: u32) -> (t: Thread)
        ensures
            t@ == ThreadView::first(tid),
    {
        Thread {
            tid,
            handle: 0,
            state: ThreadState::Running,
            saved: CpuState::new(),
            exit_code: STILL_ACTIVE,
            stack_base: 0,
            stack_size: 0,
            teb_base: 0,
            teb_owned: 0,
            suspend_count: 0,
            wait: None,
            tls: HashMap::new(),
            fls: HashMap::new(),
            msgs: Vec::new(),
            quit_code: None,
            pending_entry: None,
        }
    }
}

/// The views of a list of threads.
pub open spec fn thread_views(ts: Seq<Thread>) -> Seq<ThreadView> {
    Seq::new(ts.len(), |i: int| ts[i]@)
}

/// The threads of a process and whose turn it is.
pub struct Scheduler {
    pub threads: Vec<Thread>,
    /// The running thread.
    pub current: usize,
    /// Its id.
    pub current_tid: u32,
    /// The id that the next thread gets.
    pub next_tid: u32,
    /// Ticks since the last switch.
    pub ticks: u64,
}

/// A scheduler as mathematics.
#[verifier::ext_equal]
pub struct SchedView {
    pub threads: Seq<ThreadView>,
    pub current: int,
    pub current_tid: u32,
    pub next_tid: u32,
    pub ticks: u64,
}

impl View for Scheduler {
    type V = SchedView;

    open spec fn view(&self) -> SchedView {
        SchedView {
            threads: thread_views(self.threads@),
            current: self.current as int,
            current_tid: self.current_tid,
            next_tid: self.next_tid,
            ticks: self.ticks,
        }
    }
}

/// The condition of having a handle.
pub open spec fn has_handle(h: u64) -> spec_fn(ThreadView) -> bool {
    |t: ThreadView| t.handle == h && h != 0
}

/// The condition of having an id.
pub open spec fn has_tid(tid: u32) -> spec_fn(ThreadView) -> bool {
    |t: ThreadView| t.tid == tid
}

impl SchedView {
    /// There is a running thread, and its id is the current one.
    pub open spec fn wf(self) -> bool {
        &&& 0 <= self.current < self.threads.len()
        &&& self.threads[self.current].tid == self.current_tid
    }

    /// The thread `s` turns after the current one.
    pub open spec fn turn(self, s: int) -> int {
        (self.current + s) % self.threads.len() as int
    }

    /// Whether the thread `s` turns later can run.
    pub open spec fn can_run(self, t: TableView, s: int) -> bool {
        self.threads[self.turn(s)].runnable(t)
    }

    /// Whether the next thread in turn that can run comes `s` turns later.
    pub open spec fn is_next(self, t: TableView, s: int) -> bool {
        &&& 1 <= s < self.threads.len()
        &&& self.can_run(t, s)
        &&& forall|k: int| 1 <= k < s ==> !#[trigger] self.can_run(t, k)
    }

    /// Whether no other thread can run.
    pub open spec fn alone(self, t: TableView) -> bool {
        forall|k: int| 1 <= k < self.threads.len() ==> !#[trigger] self.can_run(t, k)
    }

    /// The next thread in turn, after the current one, that can run.
    pub open spec fn next(self, t: TableView) -> Option<int> {
        if self.alone(t) {
            None
        } else {
            Some(self.turn(choose|s: int| self.is_next(t, s)))
        }
    }

    /// The running thread.
    pub open spec fn me(self) -> ThreadView {
        self.threads[self.current]
    }

    /// The same threads but one.
    pub open spec fn with_thread(self, i: int, t: ThreadView) -> SchedView {
        SchedView { threads: self.threads.update(i, t), ..self }
    }

    /// Thread `i` running, its wait over.
    pub open spec fn activated(self, i: int) -> SchedView {
        SchedView {
            threads: self.threads.update(
                i,
                ThreadView { state: ThreadState::Running, wait: None, ..self.threads[i] },
            ),
            current: i,
            current_tid: self.threads[i].tid,
            ticks: 0,
            ..self
        }
    }

    /// The running thread saved in `state` with its registers.
    pub open spec fn parked(
        self,
        c: CpuView,
        state: ThreadState,
        wait: Option<WaitView>,
    ) -> SchedView {
        self.with_thread(self.current, ThreadView { saved: c, state, wait, ..self.me() })
    }

    /// The thread that a handle names.
    pub open spec fn by_handle(self, h: u64) -> Option<int> {
        crate::util::first_index(self.threads, has_handle(h))
    }

    /// The thread with an id.
    pub open spec fn by_tid(self, tid: u32) -> Option<int> {
        crate::util::first_index(self.threads, has_tid(tid))
    }
}

/// What a switch of threads leads to.
pub struct Switch {
    pub sched: SchedView,
    pub cpu: CpuView,
    /// Whether another thread runs now.
    pub done: bool,
}

/// What a switch away from the running thread leads to: it is parked, and the
/// next one in turn that can run goes on with its registers. Where there is
/// none, nothing changes.
pub open spec fn switch_out(
    v: SchedView,
    t: TableView,
    c: CpuView,
    state: ThreadState,
    wait: Option<WaitView>,
) -> Switch {
    match v.next(t) {
        None => Switch { sched: v, cpu: c, done: false },
        Some(i) => Switch {
            sched: v.parked(c, state, wait).activated(i),
            cpu: v.threads[i].saved,
            done: true,
        },
    }
}

/// What one more instruction leads to: with more than one thread, the running
/// one yields once its timeslice is over.
pub open spec fn preempted(v: SchedView, t: TableView, c: CpuView) -> Switch {
    if v.threads.len() < 2 {
        Switch { sched: v, cpu: c, done: false }
    } else if v.ticks + 1 < TIMESLICE {
        Switch { sched: SchedView { ticks: (v.ticks + 1) as u64, ..v }, cpu: c, done: false }
    } else {
        switch_out(SchedView { ticks: 0, ..v }, t, c, ThreadState::Ready, v.me().wait)
    }
}

/// The next thread in turn is unique, and it can run.
pub proof fn lemma_next(v: SchedView, t: TableView, s: int)
    requires
        v.wf(),
        v.is_next(t, s),
    ensures
        v.next(t) == Some(v.turn(s)),
        0 <= v.turn(s) < v.threads.len(),
        v.turn(s) != v.current,
        v.threads[v.turn(s)].runnable(t),
{
    lemma_turn(v, s);
    assert(v.can_run(t, s));
    let w = choose|w: int| v.is_next(t, w);
    assert(v.is_next(t, w));
    assert(v.can_run(t, w));
    if w < s {
        assert(!v.can_run(t, w));
    }
    if s < w {
        assert(!v.can_run(t, s));
    }
}

/// Distinct turns below the number of threads reach distinct threads, none of
/// them the current one.
pub proof fn lemma_turn(v: SchedView, s: int)
    requires
        v.wf(),
        1 <= s < v.threads.len(),
    ensures
        0 <= v.turn(s) < v.threads.len(),
        v.turn(s) != v.current,
{
    let n = v.threads.len() as int;
    if v.current + s < n {
        assert((v.current + s) % n == v.current + s) by (nonlinear_arith)
            requires
                0 <= v.current + s < n,
        ;
    } else {
        assert((v.current + s) % n == v.current + s - n) by (nonlinear_arith)
            requires
                n <= v.current + s < 2 * n,
                n > 0,
        ;
    }
}

impl Scheduler {
    /// A scheduler whose main thread runs.
    pub fn new() -> (s: Scheduler)
        ensures
            s@.wf(),
            s@ == (SchedView {
                threads: seq![ThreadView::first(MAIN_TID)],
                current: 0,
                current_tid: MAIN_TID,
                next_tid: 0x1002,
                ticks: 0,
            }),
    {
        let mut threads: Vec<Thread> = Vec::new();
        threads.push(Thread::main(MAIN_TID));
        let s = Scheduler { threads, current: 0, current_tid: MAIN_TID, next_tid: 0x1002, ticks: 0 };
        assert(s@.threads =~= seq![ThreadView::first(MAIN_TID)]);
        s
    }

    /// Whether thread `i` can run.
    pub fn runnable(&self, i: usize, objects: &ObjectTable) -> (r: bool)
        requires
            i < self.threads.len(),
            objects@.wf(),
        ensures
            r == self@.threads[i as int].runnable(objects@),
    {
        let t = &self.threads[i];
        assert(self@.threads[i as int] == t@);
        match t.state {
            ThreadState::Ready => true,
            ThreadState::Blocked => match &t.wait {
                Some(w) => objects.wait_satisfiable(&w.handles, w.all, t.tid),
                None => true,
            },
            _ => false,
        }
    }

    /// The next thread in turn, after the current one, that can run.
    pub fn pick_next(&self, objects: &ObjectTable) -> (r: Option<usize>)
        requires
            self@.wf(),
            objects@.wf(),
        ensures
            match r {
                Some(i) => i < self.threads.len() && i != self.current && self@.next(objects@)
                    == Some(i as int),
                None => self@.next(objects@) is None,
            },
    {
        let n: usize = self.threads.len();
        let mut s: usize = 1;
        while s < n
            invariant
                1 <= s,
                n == self.threads.len(),
                self@.wf(),
                objects@.wf(),
                forall|k: int| 1 <= k < s ==> !#[trigger] self@.can_run(objects@, k),
            decreases n - s,
        {
            proof {
                lemma_turn(self@, s as int);
            }
            let room: usize = n - self.current;
            let i: usize = if s < room {
                self.current + s
            } else {
                s - room
            };
            proof {
                let c = self@.current;
                let m = n as int;
                if s < room {
                    assert((c + s) % m == c + s) by (nonlinear_arith)
                        requires
                            0 <= c + s < m,
                    ;
                } else {
                    assert((c + s) % m == c + s - m) by (nonlinear_arith)
                        requires
                            m <= c + s < 2 * m,
                            m > 0,
                    ;
                }
            }
            if self.runnable(i, objects) {
                assert(self@.can_run(objects@, s as int));
                assert(self@.is_next(objects@, s as int));
                proof {
                    lemma_next(self@, objects@, s as int);
                }
                return Some(i);
            }
            s = s + 1;
        }
        None
    }

    /// Make thread `next` the running one.
    pub fn activate(&mut self, cpu: &mut CpuState, next: usize)
        requires
            next < old(self).threads.len(),
        ensures
            final(self)@ == old(self)@.activated(next as int),
            final(self)@.wf(),
            final(cpu)@ == old(self)@.threads[next as int].saved,
    {
        let ghost v = self@;
        let mut t = self.threads.remove(next);
        *cpu = t.saved;
        t.state = ThreadState::Running;
        t.wait = None;
        let tid: u32 = t.tid;
        self.threads.insert(next, t);
        self.current = next;
        self.current_tid = tid;
        self.ticks = 0;
        assert(self@.threads =~= v.activated(next as int).threads);
    }

    /// Save the running thread's registers and set its state.
    pub fn park(&mut self, cpu: &CpuState, state: ThreadState, wait: Option<WaitDesc>)
        requires
            old(self)@.wf(),
        ensures
            final(self)@ == old(self)@.parked(cpu@, state, wait_view(wait)),
            final(self)@.wf(),
    {
        let ghost v = self@;
        let cur: usize = self.current;
        let mut t = self.threads.remove(cur);
        t.saved = *cpu;
        t.state = state;
        t.wait = wait;
        self.threads.insert(cur, t);
        assert(self@.threads =~= v.parked(cpu@, state, wait_view(wait)).threads);
    }

    /// Block the running thread on `desc` and switch to the next thread that
    /// can run; `false`, with nothing changed, where there is none.
    pub fn block_and_switch(
        &mut self,
        cpu: &mut CpuState,
        desc: WaitDesc,
        objects: &ObjectTable,
    ) -> (r: bool)
        requires
            old(self)@.wf(),
            objects@.wf(),
        ensures
            final(self)@.wf(),
            ({
                let o = switch_out(
                    old(self)@,
                    objects@,
                    old(cpu)@,
                    ThreadState::Blocked,
                    Some(desc@),
                );
                &&& final(self)@ == o.sched
                &&& final(cpu)@ == o.cpu
                &&& r == o.done
            }),
    {
        match self.pick_next(objects) {
            Some(next) => {
                self.park(cpu, ThreadState::Blocked, Some(desc));
                self.activate(cpu, next);
                true
            },
            None => false,
        }
    }

    /// Leave the running thread ready and switch to the next thread that can
    /// run; `false`, with nothing changed, where there is none.
    pub fn yield_and_switch(&mut self, cpu: &mut CpuState, objects: &ObjectTable) -> (r: bool)
        requires
            old(self)@.wf(),
            objects@.wf(),
        ensures
            final(self)@.wf(),
            ({
                let o = switch_out(
                    old(self)@,
                    objects@,
                    old(cpu)@,
                    ThreadState::Ready,
                    old(self)@.me().wait,
                );
                &&& final(self)@ == o.sched
                &&& final(cpu)@ == o.cpu
                &&& r == o.done
            }),
    {
        match self.pick_next(objects) {
            Some(next) => {
                let ghost v = self@;
                let cur: usize = self.current;
                let mut t = self.threads.remove(cur);
                t.saved = *cpu;
                t.state = ThreadState::Ready;
                self.threads.insert(cur, t);
                assert(self@.threads =~= v.parked(cpu@, ThreadState::Ready, v.me().wait).threads);
                self.activate(cpu, next);
                true
            },
            None => false,
        }
    }

    /// Count one instruction; when a timeslice is over and there is more than
    /// one thread, yield. Returns whether a switch happened.
    pub fn preempt(&mut self, cpu: &mut CpuState, objects: &ObjectTable) -> (r: bool)
        requires
            old(self)@.wf(),
            objects@.wf(),
        ensures
            final(self)@.wf(),
            ({
                let o = preempted(old(self)@, objects@, old(cpu)@);
                &&& final(self)@ == o.sched
                &&& final(cpu)@ == o.cpu
                &&& r == o.done
            }),
    {
        if self.threads.len() < 2 {
            return false;
        }
        if self.ticks < TIMESLICE - 1 {
            self.ticks = self.ticks + 1;
            return false;
        }
        self.ticks = 0;
        self.yield_and_switch(cpu, objects)
    }

    /// The thread that a handle names.
    pub fn thread_by_handle(&self, h: u64) -> (r: Option<usize>)
        ensures
            match r {
                Some(i) => i < self.threads.len() && self@.by_handle(h) == Some(i as int),
                None => self@.by_handle(h) is None,
            },
    {
        let mut i: usize = 0;
        while i < self.threads.len()
            invariant
                i <= self.threads.len(),
                forall|j: int| 0 <= j < i ==> !has_handle(h)(#[trigger] self@.threads[j]),
            decreases self.threads.len() - i,
        {
            assert(self@.threads[i as int] == self.threads[i as int]@);
            if self.threads[i].handle == h && h != 0 {
                proof {
                    crate::util::lemma_first_index_is(self@.threads, has_handle(h), i as int);
                }
                return Some(i);
            }
            i = i + 1;
        }
        proof {
            crate::util::lemma_first_index_none(self@.threads, has_handle(h));
        }
        None
    }

    /// The thread with an id.
    pub fn thread_by_tid(&self, tid: u32) -> (r: Option<usize>)
        ensures
            match r {
                Some(i) => i < self.threads.len() && self@.by_tid(tid) == Some(i as int),
                None => self@.by_tid(tid) is None,
            },
    {
        let mut i: usize = 0;
        while i < self.threads.len()
            invariant
                i <= self.threads.len(),
                forall|j: int| 0 <= j < i ==> !has_tid(tid)(#[trigger] self@.threads[j]),
            decreases self.threads.len() - i,
        {
            assert(self@.threads[i as int] == self.threads[i as int]@);
            if self.threads[i].tid == tid {
                proof {
                    crate::util::lemma_first_index_is(self@.threads, has_tid(tid), i as int);
                }
                return Some(i);
            }
            i = i + 1;
        }
        proof {
            crate::util::lemma_first_index_none(self@.threads, has_tid(tid));
        }
        None
    }

    /// Mark thread `i` as ended with `code`.
    pub fn terminate(&mut self, i: usize, code: u32)
        requires
            i < old(self).threads.len(),
        ensures
            final(self)@ == old(self)@.with_thread(
                i as int,
                ThreadView {
                    state: ThreadState::Terminated,
                    exit_code: code,
                    ..old(self)@.threads[i as int]
                },
            ),
            old(self)@.wf() ==> final(self)@.wf(),
    {
        let ghost v = self@;
        let mut t = self.threads.remove(i);
        t.state = ThreadState::Terminated;
        t.exit_code = code;
        self.threads.insert(i, t);
        assert(self@.threads =~= v.with_thread(
            i as int,
            ThreadView { state: ThreadState::Terminated, exit_code: code, ..v.threads[i as int] },
        ).threads);
    }

    /// Count one more suspension of thread `i`; another thread that has not
    /// ended is parked. Returns the count before.
    pub fn suspend(&mut self, i: usize) -> (prev: u32)
        requires
            i < old(self).threads.len(),
        ensures
            prev == old(self)@.threads[i as int].suspend_count,
            final(self)@ == old(self)@.with_thread(
                i as int,
                suspended(old(self)@.threads[i as int], i as int != old(self)@.current),
            ),
            old(self)@.wf() ==> final(self)@.wf(),
    {
        let ghost v = self@;
        let other: bool = i != self.current;
        let mut t = self.threads.remove(i);
        let prev: u32 = t.suspend_count;
        if prev < u32::MAX {
            t.suspend_count = prev + 1;
        }
        if other && t.state != ThreadState::Terminated {
            t.state = ThreadState::Suspended;
        }
        self.threads.insert(i, t);
        assert(self@.threads =~= v.with_thread(
            i as int,
            suspended(v.threads[i as int], i as int != v.current),
        ).threads);
        prev
    }

    /// Count one suspension of thread `i` less; the last one makes a suspended
    /// thread ready. Returns the count before.
    pub fn resume(&mut self, i: usize) -> (prev: u32)
        requires
            i < old(self).threads.len(),
        ensures
            prev == old(self)@.threads[i as int].suspend_count,
            final(self)@ == old(self)@.with_thread(
                i as int,
                resumed(old(self)@.threads[i as int]),
            ),
            old(self)@.wf() ==> final(self)@.wf(),
    {
        let ghost v = self@;
        let mut t = self.threads.remove(i);
        let prev: u32 = t.suspend_count;
        if prev > 0 {
            t.suspend_count = prev - 1;
            if prev == 1 && t.state == ThreadState::Suspended {
                t.state = ThreadState::Ready;
            }
        }
        self.threads.insert(i, t);
        assert(self@.threads =~= v.with_thread(i as int, resumed(v.threads[i as int])).threads);
        prev
    }
}

/// A thread suspended once more; the count stops at its maximum.
pub open spec fn suspended(t: ThreadView, other: bool) -> ThreadView {
    ThreadView {
        suspend_count: if t.suspend_count < u32::MAX {
            (t.suspend_count + 1) as u32
        } else {
            t.suspend_count
        },
        state: if other && t.state != ThreadState::Terminated {
            ThreadState::Suspended
        } else {
            t.state
        },
        ..t
    }
}

/// A thread suspended once less.
pub open spec fn resumed(t: ThreadView) -> ThreadView {
    ThreadView {
        suspend_count: if t.suspend_count > 0 {
            (t.suspend_count - 1) as u32
        } else {
            0
        },
        state: if t.suspend_count == 1 && t.state == ThreadState::Suspended {
            ThreadState::Ready
        } else {
            t.state
        },
        ..t
    }
}

/// Resuming a ready thread that was suspended once makes it ready again.
pub proof fn lemma_resume_undoes_suspend(t: ThreadView)
    requires
        t.state == ThreadState::Ready,
        t.suspend_count == 0,
    ensures
        suspended(t, true).state == ThreadState::Suspended,
        resumed(suspended(t, true)) == t,
{
}

/// A switch leaves exactly the chosen thread, which can run, in place of the one
/// that ran, which keeps its registers, and no third thread changes.
pub proof fn lemma_switch_frame(
    v: SchedView,
    t: TableView,
    c: CpuView,
    state: ThreadState,
    wait: Option<WaitView>,
)
    requires
        v.wf(),
        !v.alone(t),
    ensures
        ({
            let o = switch_out(v, t, c, state, wait);
            let n = o.sched;
            &&& o.done
            &&& n.wf()
            &&& n.threads.len() == v.threads.len()
            &&& n.current != v.current
            &&& n.threads[v.current].saved == c
            &&& n.threads[v.current].state == state
            &&& n.me().state == ThreadState::Running
            &&& v.threads[n.current].runnable(t)
            &&& o.cpu == v.threads[n.current].saved
            &&& n.current_tid == v.threads[n.current].tid
            &&& forall|i: int|
                0 <= i < v.threads.len() && i != v.current && i != n.current
                    ==> #[trigger] n.threads[i] == v.threads[i]
        }),
{
    let k = choose|k: int| 1 <= k < v.threads.len() && #[trigger] v.can_run(t, k);
    let s = lemma_least_turn(v, t, k);
    lemma_next(v, t, s);
}

/// Some thread comes first in turn among those that can run.
proof fn lemma_least_turn(v: SchedView, t: TableView, k: int) -> (s: int)
    requires
        1 <= k < v.threads.len(),
        v.can_run(t, k),
    ensures
        v.is_next(t, s),
    decreases k,
{
    if forall|j: int| 1 <= j < k ==> !#[trigger] v.can_run(t, j) {
        k
    } else {
        let j = choose|j: int| 1 <= j < k && #[trigger] v.can_run(t, j);
        lemma_least_turn(v, t, j)
    }
}

/// A blocked thread can run as soon as what it waits for is signaled: one of its
/// handles, or all of them.
pub proof fn lemma_signal_wakes(t: TableView, x: ThreadView, w: WaitView, k: int)
    requires
        x.state == ThreadState::Blocked,
        x.wait == Some(w),
        w.all ==> forall|i: int|
            0 <= i < w.handles.len() ==> t.signaled(#[trigger] w.handles[i], x.tid),
        !w.all ==> 0 <= k < w.handles.len() && t.signaled(w.handles[k], x.tid),
    ensures
        x.runnable(t),
{
    if !w.all {
        crate::util::lemma_first_index(w.handles, t.signals(x.tid));
        assert(t.signals(x.tid)(w.handles[k]));
    }
}

/// The threads after the running one went on for some instructions, each with the
/// registers before it.
pub open spec fn ran_on(v: SchedView, t: TableView, cs: Seq<CpuView>) -> SchedView
    decreases cs.len(),
{
    if cs.len() == 0 {
        v
    } else {
        preempted(ran_on(v, t, cs.drop_last()), t, cs.last()).sched
    }
}

/// Until its timeslice is over, only the count of the running thread changes.
proof fn lemma_ran_on(v: SchedView, t: TableView, cs: Seq<CpuView>)
    requires
        v.threads.len() >= 2,
        v.ticks + cs.len() < TIMESLICE,
    ensures
        ran_on(v, t, cs) == (SchedView { ticks: (v.ticks + cs.len()) as u64, ..v }),
    decreases cs.len(),
{
    if cs.len() > 0 {
        lemma_ran_on(v, t, cs.drop_last());
    }
}

/// Whether a thread has work is not a matter of time.
proof fn lemma_alone_timeless(v: SchedView, t: TableView, ticks: u64)
    ensures
        (SchedView { ticks, ..v }).alone(t) == v.alone(t),
{
    let w = SchedView { ticks, ..v };
    assert forall|k: int| #[trigger] w.can_run(t, k) == v.can_run(t, k) by {
        assert(w.turn(k) == v.turn(k));
    }
    if v.alone(t) {
        assert forall|k: int| 1 <= k < w.threads.len() implies !#[trigger] w.can_run(t, k) by {
            assert(!v.can_run(t, k));
        }
    }
    if w.alone(t) {
        assert forall|k: int| 1 <= k < v.threads.len() implies !#[trigger] v.can_run(t, k) by {
            assert(!w.can_run(t, k));
        }
    }
}

/// A thread that shares the process with one that can run goes on undisturbed for
/// its timeslice and then makes room, whatever it does.
pub proof fn lemma_timeslice_ends(v: SchedView, t: TableView, cs: Seq<CpuView>, c: CpuView)
    requires
        v.wf(),
        !v.alone(t),
        v.ticks + cs.len() + 1 == TIMESLICE,
    ensures
        ran_on(v, t, cs).threads == v.threads,
        ran_on(v, t, cs).current == v.current,
        preempted(ran_on(v, t, cs), t, c).done,
        preempted(ran_on(v, t, cs), t, c).sched.current != v.current,
{
    let k = choose|k: int| 1 <= k < v.threads.len() && v.can_run(t, k);
    assert(v.can_run(t, k));
    lemma_ran_on(v, t, cs);
    lemma_alone_timeless(v, t, 0);
    let w = SchedView { ticks: 0, ..v };
    assert(w.turn(k) == v.turn(k));
    let s = lemma_least_turn(w, t, k);
    lemma_next(w, t, s);
}

} // verus!
