//! Kernel synchronization objects: what signals them, what a wait consumes,
//! and the table of handles that name them.

use vstd::prelude::*;

use std::collections::HashMap;

use crate::util::{first_index, lemma_first_index, lemma_first_index_is, lemma_first_index_none, StrMap};

verus! {

broadcast use vstd::std_specs::hash::group_hash_axioms;

/// Wait result: the object (or the first of several) was signaled.
pub const WAIT_OBJECT_0: u64 = 0x0000_0000;

/// Wait result: nothing was signaled in time.
pub const WAIT_TIMEOUT: u64 = 0x0000_0102;

/// Which kind of object a create or open call means.
#[derive(Clone, Copy, Debug, PartialEq, Eq, Structural)]
pub enum SyncKind {
    Event,
    Mutex,
    Semaphore,
    Timer,
}

/// A call that changes an object's state.
#[derive(Clone, Copy, Debug, PartialEq, Eq, Structural)]
pub enum SignalOp {
    SetEvent,
    ResetEvent,
    PulseEvent,
    ReleaseMutex,
    ReleaseSemaphore,
}

/// A synchronization object.
#[derive(Clone, Copy, Debug, PartialEq, Eq, Structural)]
pub enum KObject {
    Event { manual_reset: bool, signaled: bool },
    Mutex { owner: Option<u32>, recursion: u32 },
    Semaphore { count: i32, max: i32 },
    Timer { manual_reset: bool, signaled: bool },
    /// Signaled once the thread has exited, and from then on.
    Thread { exited: bool },
}

/// What a signal operation does to an object.
pub struct Signaled {
    pub obj: KObject,
    /// Whether the operation applied.
    pub ok: bool,
    /// The count of a semaphore before.
    pub prev: i32,
}

impl KObject {
    /// Whether a wait by thread `tid` would be satisfied now.
    pub open spec fn signaled(self, tid: u32) -> bool {
        match self {
            KObject::Event { signaled, .. } => signaled,
            KObject::Timer { signaled, .. } => signaled,
            KObject::Semaphore { count, .. } => count > 0,
            KObject::Mutex { owner, .. } => owner is None || owner == Some(tid),
            KObject::Thread { exited } => exited,
        }
    }

    /// The object after a wait by `tid` was satisfied: an auto-reset event is
    /// reset, a semaphore counts down, a mutex is owned once more.
    pub open spec fn consumed(self, tid: u32) -> KObject {
        match self {
            KObject::Event { manual_reset, signaled } => KObject::Event {
                manual_reset,
                signaled: signaled && manual_reset,
            },
            KObject::Timer { manual_reset, signaled } => KObject::Timer {
                manual_reset,
                signaled: signaled && manual_reset,
            },
            KObject::Semaphore { count, max } => KObject::Semaphore {
                count: (count - 1) as i32,
                max,
            },
            KObject::Mutex { owner, recursion } => KObject::Mutex {
                owner: Some(tid),
                recursion: if owner is None {
                    1
                } else if recursion < u32::MAX {
                    (recursion + 1) as u32
                } else {
                    recursion
                },
            },
            KObject::Thread { exited } => self,
        }
    }

    /// The object after a wait by `tid`, satisfied or not.
    pub open spec fn waited(self, tid: u32) -> KObject {
        if self.signaled(tid) {
            self.consumed(tid)
        } else {
            self
        }
    }

    /// Whether a wait by thread `tid` would be satisfied now.
    pub fn is_signaled(&self, tid: u32) -> (r: bool)
        ensures
            r == self.signaled(tid),
    {
        match *self {
            KObject::Event { signaled, .. } => signaled,
            KObject::Timer { signaled, .. } => signaled,
            KObject::Semaphore { count, .. } => count > 0,
            KObject::Mutex { owner, .. } => match owner {
                None => true,
                Some(o) => o == tid,
            },
            KObject::Thread { exited } => exited,
        }
    }

    /// Satisfy a wait by `tid` if the object is signaled, consuming its state;
    /// returns whether it was.
    pub fn acquire(&mut self, tid: u32) -> (r: bool)
        ensures
            r == old(self).signaled(tid),
            *final(self) == old(self).waited(tid),
    {
        if !self.is_signaled(tid) {
            return false;
        }
        *self = match *self {
            KObject::Event { manual_reset, signaled } => KObject::Event {
                manual_reset,
                signaled: signaled && manual_reset,
            },
            KObject::Timer { manual_reset, signaled } => KObject::Timer {
                manual_reset,
                signaled: signaled && manual_reset,
            },
            KObject::Semaphore { count, max } => KObject::Semaphore { count: count - 1, max },
            KObject::Mutex { owner, recursion } => KObject::Mutex {
                owner: Some(tid),
                recursion: match owner {
                    None => 1,
                    Some(_) => if recursion < u32::MAX {
                        recursion + 1
                    } else {
                        recursion
                    },
                },
            },
            KObject::Thread { exited } => KObject::Thread { exited },
        };
        true
    }

    /// What `op` by thread `tid` does; `rel` is the count a semaphore is
    /// released by. A semaphore refuses to pass its maximum (where it has one)
    /// or the range of its count; an operation on another kind of object
    /// changes nothing.
    pub open spec fn after(self, op: SignalOp, tid: u32, rel: i32) -> Signaled {
        match (op, self) {
            (SignalOp::SetEvent, KObject::Event { manual_reset, .. }) => Signaled {
                obj: KObject::Event { manual_reset, signaled: true },
                ok: true,
                prev: 0,
            },
            (SignalOp::SetEvent, KObject::Timer { manual_reset, .. }) => Signaled {
                obj: KObject::Timer { manual_reset, signaled: true },
                ok: true,
                prev: 0,
            },
            (SignalOp::ResetEvent, KObject::Event { manual_reset, .. })
            | (SignalOp::PulseEvent, KObject::Event { manual_reset, .. }) => Signaled {
                obj: KObject::Event { manual_reset, signaled: false },
                ok: true,
                prev: 0,
            },
            (SignalOp::ResetEvent, KObject::Timer { manual_reset, .. })
            | (SignalOp::PulseEvent, KObject::Timer { manual_reset, .. }) => Signaled {
                obj: KObject::Timer { manual_reset, signaled: false },
                ok: true,
                prev: 0,
            },
            (SignalOp::ReleaseMutex, KObject::Mutex { owner, recursion }) => if owner == Some(
                tid,
            ) {
                Signaled {
                    obj: KObject::Mutex {
                        owner: if recursion <= 1 {
                            None
                        } else {
                            owner
                        },
                        recursion: if recursion == 0 {
                            0
                        } else {
                            (recursion - 1) as u32
                        },
                    },
                    ok: true,
                    prev: 0,
                }
            } else {
                Signaled { obj: self, ok: false, prev: 0 }
            },
            (SignalOp::ReleaseSemaphore, KObject::Semaphore { count, max }) => if !(i32::MIN
                <= count + rel <= i32::MAX) || (max > 0 && count + rel > max) {
                Signaled { obj: self, ok: false, prev: count }
            } else {
                Signaled {
                    obj: KObject::Semaphore { count: (count + rel) as i32, max },
                    ok: true,
                    prev: count,
                }
            },
            _ => Signaled { obj: self, ok: false, prev: 0 },
        }
    }

    /// Apply `op` by thread `tid`; returns whether it applied, and the count of
    /// a semaphore before.
    pub fn signal(&mut self, op: SignalOp, tid: u32, rel: i32) -> (r: (bool, i32))
        ensures
            *final(self) == old(self).after(op, tid, rel).obj,
            r.0 == old(self).after(op, tid, rel).ok,
            r.1 == old(self).after(op, tid, rel).prev,
    {
        match (op, *self) {
            (SignalOp::SetEvent, KObject::Event { manual_reset, .. }) => {
                *self = KObject::Event { manual_reset, signaled: true };
                (true, 0)
            },
            (SignalOp::SetEvent, KObject::Timer { manual_reset, .. }) => {
                *self = KObject::Timer { manual_reset, signaled: true };
                (true, 0)
            },
            (SignalOp::ResetEvent, KObject::Event { manual_reset, .. })
            | (SignalOp::PulseEvent, KObject::Event { manual_reset, .. }) => {
                *self = KObject::Event { manual_reset, signaled: false };
                (true, 0)
            },
            (SignalOp::ResetEvent, KObject::Timer { manual_reset, .. })
            | (SignalOp::PulseEvent, KObject::Timer { manual_reset, .. }) => {
                *self = KObject::Timer { manual_reset, signaled: false };
                (true, 0)
            },
            (SignalOp::ReleaseMutex, KObject::Mutex { owner, recursion }) => {
                let mine: bool = match owner {
                    Some(o) => o == tid,
                    None => false,
                };
                if mine {
                    let left: u32 = if recursion == 0 {
                        0
                    } else {
                        recursion - 1
                    };
                    *self = KObject::Mutex {
                        owner: if left == 0 {
                            None
                        } else {
                            owner
                        },
                        recursion: left,
                    };
                    (true, 0)
                } else {
                    (false, 0)
                }
            },
            (SignalOp::ReleaseSemaphore, KObject::Semaphore { count, max }) => {
                let bump: i64 = count as i64 + rel as i64;
                if bump < i32::MIN as i64 || bump > i32::MAX as i64 || (max > 0 && bump
                    > max as i64) {
                    (false, count)
                } else {
                    *self = KObject::Semaphore { count: bump as i32, max };
                    (true, count)
                }
            },
            _ => (false, 0),
        }
    }

    /// The object that a create call makes. For a mutex `signaled` means owned
    /// by the creating thread `tid` from the start.
    pub open spec fn created(
        kind: SyncKind,
        manual: bool,
        signaled: bool,
        count: i32,
        max: i32,
        tid: u32,
    ) -> KObject {
        match kind {
            SyncKind::Event => KObject::Event { manual_reset: manual, signaled },
            SyncKind::Timer => KObject::Timer { manual_reset: manual, signaled },
            SyncKind::Mutex => KObject::Mutex {
                owner: if signaled {
                    Some(tid)
                } else {
                    None
                },
                recursion: if signaled {
                    1
                } else {
                    0
                },
            },
            SyncKind::Semaphore => KObject::Semaphore { count, max },
        }
    }

    /// The object that a create call makes.
    pub fn create(
        kind: SyncKind,
        manual: bool,
        signaled: bool,
        count: i32,
        max: i32,
        tid: u32,
    ) -> (r: KObject)
        ensures
            r == KObject::created(kind, manual, signaled, count, max, tid),
    {
        match kind {
            SyncKind::Event => KObject::Event { manual_reset: manual, signaled },
            SyncKind::Timer => KObject::Timer { manual_reset: manual, signaled },
            SyncKind::Mutex => KObject::Mutex {
                owner: if signaled {
                    Some(tid)
                } else {
                    None
                },
                recursion: if signaled {
                    1
                } else {
                    0
                },
            },
            SyncKind::Semaphore => KObject::Semaphore { count, max },
        }
    }
}

/// Releasing a mutex undoes the acquisition before it.
pub proof fn lemma_release_undoes_acquire(o: KObject, tid: u32)
    requires
        o is Mutex,
        o.signaled(tid),
        o->Mutex_owner is None ==> o->Mutex_recursion == 0,
        o->Mutex_owner is Some ==> 0 < o->Mutex_recursion < u32::MAX,
    ensures
        o.consumed(tid).after(SignalOp::ReleaseMutex, tid, 0).ok,
        o.consumed(tid).after(SignalOp::ReleaseMutex, tid, 0).obj == o,
{
}

/// A mutex that one thread owns satisfies no wait of another.
pub proof fn lemma_mutex_excludes(o: KObject, tid: u32, other: u32)
    requires
        o is Mutex,
        o.signaled(tid),
        tid != other,
    ensures
        !o.consumed(tid).signaled(other),
        o.consumed(tid).signaled(tid),
{
}

/// An auto-reset event satisfies one wait; a manual-reset event every one.
pub proof fn lemma_event_reset(manual_reset: bool, tid: u32, other: u32)
    ensures
        (KObject::Event { manual_reset, signaled: true }).signaled(tid),
        (KObject::Event { manual_reset, signaled: true }).consumed(tid).signaled(other)
            == manual_reset,
{
}

/// A semaphore satisfies a wait exactly while its count is positive, each wait
/// takes one, and releasing one gives it back.
pub proof fn lemma_semaphore_counts(count: i32, max: i32, tid: u32)
    requires
        0 < count,
        max > 0 ==> count <= max,
    ensures
        (KObject::Semaphore { count, max }).signaled(tid),
        (KObject::Semaphore { count, max }).consumed(tid) == (KObject::Semaphore {
            count: (count - 1) as i32,
            max,
        }),
        (KObject::Semaphore { count, max }).consumed(tid).after(
            SignalOp::ReleaseSemaphore,
            tid,
            1,
        ).obj == (KObject::Semaphore { count, max }),
        !(KObject::Semaphore { count: 0, max }).signaled(tid),
{
}

/// An object and the number of handles that name it.
#[derive(Clone, Copy, Debug, PartialEq, Eq, Structural)]
pub struct Shared {
    pub obj: KObject,
    pub refs: u64,
}

/// The handles of a process and the objects they name.
pub struct ObjectTable {
    /// Which object a handle names.
    pub handles: HashMap<u64, u64>,
    /// The objects, by the handle they were created under.
    pub objects: HashMap<u64, Shared>,
    /// The handles of named objects.
    pub names: StrMap<u64>,
}

/// The handles that name object `id`.
pub open spec fn naming(handles: Map<u64, u64>, id: u64) -> Set<u64> {
    Set::new(|h: u64| handles.contains_key(h) && handles[h] == id)
}

/// The handles and objects of a table.
pub struct TableView {
    pub handles: Map<u64, u64>,
    pub objects: Map<u64, Shared>,
}

impl TableView {
    /// The object that a handle names.
    pub open spec fn obj(self, h: u64) -> Option<KObject> {
        if self.handles.contains_key(h) {
            Some(self.objects[self.handles[h]].obj)
        } else {
            None
        }
    }

    /// The table with the object that `h` names replaced.
    pub open spec fn with_obj(self, h: u64, o: KObject) -> TableView {
        let id = self.handles[h];
        TableView {
            objects: self.objects.insert(id, Shared { obj: o, refs: self.objects[id].refs }),
            ..self
        }
    }

    /// Whether a wait by `tid` on `h` is satisfied; an unknown handle counts as
    /// signaled.
    pub open spec fn signaled(self, h: u64, tid: u32) -> bool {
        match self.obj(h) {
            Some(o) => o.signaled(tid),
            None => true,
        }
    }

    /// The table after a wait by `tid` on `h`.
    pub open spec fn waited(self, h: u64, tid: u32) -> TableView {
        match self.obj(h) {
            Some(o) => self.with_obj(h, o.waited(tid)),
            None => self,
        }
    }

    /// The table after waits on several handles, in order.
    pub open spec fn waited_all(self, hs: Seq<u64>, tid: u32) -> TableView
        decreases hs.len(),
    {
        if hs.len() == 0 {
            self
        } else {
            self.waited_all(hs.drop_last(), tid).waited(hs.last(), tid)
        }
    }

    /// The condition that a wait on a handle is satisfied.
    pub open spec fn signals(self, tid: u32) -> spec_fn(u64) -> bool {
        |h: u64| self.signaled(h, tid)
    }

    /// Whether a wait by `tid` on all, or on any, of the handles is satisfied.
    pub open spec fn satisfiable(self, hs: Seq<u64>, all: bool, tid: u32) -> bool {
        if all {
            forall|i: int| 0 <= i < hs.len() ==> self.signaled(#[trigger] hs[i], tid)
        } else {
            first_index(hs, self.signals(tid)) is Some
        }
    }

    /// A new object under its first handle.
    pub open spec fn with_new(self, h: u64, o: KObject) -> TableView {
        TableView {
            handles: self.handles.insert(h, h),
            objects: self.objects.insert(h, Shared { obj: o, refs: 1 }),
        }
    }

    /// One more handle for the object that `src` names.
    pub open spec fn with_dup(self, src: u64, h: u64) -> TableView {
        let id = self.handles[src];
        let s = self.objects[id];
        TableView {
            handles: self.handles.insert(h, id),
            objects: self.objects.insert(id, Shared { obj: s.obj, refs: (s.refs + 1) as u64 }),
        }
    }

    /// Without the handle `h`; the object goes with its last handle.
    pub open spec fn without(self, h: u64) -> TableView {
        let id = self.handles[h];
        let s = self.objects[id];
        TableView {
            handles: self.handles.remove(h),
            objects: if s.refs <= 1 {
                self.objects.remove(id)
            } else {
                self.objects.insert(id, Shared { obj: s.obj, refs: (s.refs - 1) as u64 })
            },
        }
    }

    /// Every handle names an object, and every object knows how many do.
    pub open spec fn wf(self) -> bool {
        &&& forall|h: u64| #[trigger]
            self.handles.contains_key(h) ==> self.objects.contains_key(self.handles[h])
        &&& forall|id: u64| #[trigger]
            self.objects.contains_key(id) ==> {
                &&& naming(self.handles, id).finite()
                &&& naming(self.handles, id).len() == self.objects[id].refs
                &&& self.objects[id].refs > 0
            }
    }

    /// Handles and object numbers lie below `bound`.
    pub open spec fn below(self, bound: u64) -> bool {
        &&& forall|h: u64| #[trigger] self.handles.contains_key(h) ==> h < bound
        &&& forall|id: u64| #[trigger] self.objects.contains_key(id) ==> id < bound
    }
}

impl View for ObjectTable {
    type V = TableView;

    open spec fn view(&self) -> TableView {
        TableView { handles: self.handles@, objects: self.objects@ }
    }
}

/// Replacing an object's state keeps the table consistent.
pub proof fn lemma_with_obj_wf(t: TableView, h: u64, o: KObject, bound: u64)
    requires
        t.wf(),
        t.handles.contains_key(h),
    ensures
        t.with_obj(h, o).wf(),
        t.below(bound) ==> t.with_obj(h, o).below(bound),
{
    assert(t.objects.contains_key(t.handles[h]));
    let n = t.with_obj(h, o);
    assert forall|id: u64| #[trigger] n.objects.contains_key(id) implies {
        &&& naming(n.handles, id).finite()
        &&& naming(n.handles, id).len() == n.objects[id].refs
        &&& n.objects[id].refs > 0
    } by {
        assert(t.objects.contains_key(id));
    }
    if t.below(bound) {
        assert forall|id: u64| #[trigger] n.objects.contains_key(id) implies id < bound by {
            assert(t.objects.contains_key(id));
        }
    }
}

/// Waiting keeps the table consistent.
pub proof fn lemma_waited_wf(t: TableView, h: u64, tid: u32, bound: u64)
    requires
        t.wf(),
    ensures
        t.waited(h, tid).wf(),
        t.below(bound) ==> t.waited(h, tid).below(bound),
{
    if t.obj(h) is Some {
        lemma_with_obj_wf(t, h, t.obj(h)->0.waited(tid), bound);
    }
}

/// A new object keeps the table consistent.
pub proof fn lemma_with_new_wf(t: TableView, h: u64, o: KObject)
    requires
        t.wf(),
        !t.handles.contains_key(h),
        !t.objects.contains_key(h),
    ensures
        t.with_new(h, o).wf(),
        t.with_new(h, o).obj(h) == Some(o),
        forall|x: u64| x != h ==> #[trigger] t.with_new(h, o).obj(x) == t.obj(x),
{
    let n = t.with_new(h, o);
    assert(naming(n.handles, h) =~= set![h]) by {
        assert forall|x: u64| #[trigger] naming(n.handles, h).contains(x) implies x == h by {
            if x != h {
                assert(t.handles.contains_key(x));
                assert(t.objects.contains_key(t.handles[x]));
            }
        }
    }
    assert forall|id: u64| #[trigger] n.objects.contains_key(id) implies {
        &&& naming(n.handles, id).finite()
        &&& naming(n.handles, id).len() == n.objects[id].refs
        &&& n.objects[id].refs > 0
    } by {
        if id != h {
            assert(t.objects.contains_key(id));
            assert(naming(n.handles, id) =~= naming(t.handles, id));
        }
    }
    assert forall|x: u64| #[trigger] n.handles.contains_key(x) implies n.objects.contains_key(
        n.handles[x],
    ) by {
        if x != h {
            assert(t.handles.contains_key(x));
        }
    }
    assert forall|x: u64| x != h implies #[trigger] n.obj(x) == t.obj(x) by {
        if t.handles.contains_key(x) {
            assert(t.objects.contains_key(t.handles[x]));
        }
    }
}

/// One more handle keeps the table consistent and names the same object.
pub proof fn lemma_with_dup_wf(t: TableView, src: u64, h: u64)
    requires
        t.wf(),
        t.handles.contains_key(src),
        !t.handles.contains_key(h),
        t.objects[t.handles[src]].refs < u64::MAX,
    ensures
        t.with_dup(src, h).wf(),
        forall|x: u64| x != h ==> #[trigger] t.with_dup(src, h).obj(x) == t.obj(x),
        t.with_dup(src, h).obj(h) == t.obj(src),
{
    let n = t.with_dup(src, h);
    let i = t.handles[src];
    assert(t.objects.contains_key(i));
    assert(naming(n.handles, i) =~= naming(t.handles, i).insert(h));
    assert forall|id: u64| #[trigger] n.objects.contains_key(id) implies {
        &&& naming(n.handles, id).finite()
        &&& naming(n.handles, id).len() == n.objects[id].refs
        &&& n.objects[id].refs > 0
    } by {
        assert(t.objects.contains_key(id));
        if id != i {
            assert(naming(n.handles, id) =~= naming(t.handles, id));
        }
    }
    assert forall|x: u64| #[trigger] n.handles.contains_key(x) implies n.objects.contains_key(
        n.handles[x],
    ) by {
        if x != h {
            assert(t.handles.contains_key(x));
        }
    }
}

/// Closing a handle keeps the table consistent, and every other handle keeps
/// its object.
pub proof fn lemma_without_wf(t: TableView, h: u64)
    requires
        t.wf(),
        t.handles.contains_key(h),
    ensures
        t.without(h).wf(),
        t.without(h).obj(h) is None,
        forall|x: u64| x != h ==> #[trigger] t.without(h).obj(x) == t.obj(x),
{
    let n = t.without(h);
    let i = t.handles[h];
    assert(t.objects.contains_key(i));
    assert(naming(t.handles, i).contains(h));
    assert(naming(n.handles, i) =~= naming(t.handles, i).remove(h));
    assert forall|x: u64| #[trigger] n.handles.contains_key(x) implies n.objects.contains_key(
        n.handles[x],
    ) && n.objects[n.handles[x]].obj == t.objects[t.handles[x]].obj by {
        assert(t.handles.contains_key(x));
        assert(t.objects.contains_key(t.handles[x]));
        if t.handles[x] == i {
            assert(naming(n.handles, i).contains(x));
        }
    }
    assert forall|id: u64| #[trigger] n.objects.contains_key(id) implies {
        &&& naming(n.handles, id).finite()
        &&& naming(n.handles, id).len() == n.objects[id].refs
        &&& n.objects[id].refs > 0
    } by {
        assert(t.objects.contains_key(id));
        if id != i {
            assert(naming(n.handles, id) =~= naming(t.handles, id));
        }
    }
}

/// Whether the object of a handle can have one more handle.
pub open spec fn can_dup(t: TableView, h: u64) -> bool {
    t.handles.contains_key(h) && t.objects[t.handles[h]].refs < u64::MAX
}

/// A duplicated handle names the same object: what is done to the object through one handle
/// is seen through the other, and closing one leaves the other its object.
pub proof fn lemma_dup_shares(t: TableView, src: u64, h: u64, o: KObject, tid: u32)
    requires
        t.wf(),
        can_dup(t, src),
        !t.handles.contains_key(h),
    ensures
        h != src,
        ({
            let n = t.with_dup(src, h);
            &&& n.obj(src) == t.obj(src)
            &&& n.obj(h) == t.obj(src)
            &&& n.with_obj(h, o).obj(src) == Some(o)
            &&& n.with_obj(src, o).obj(h) == Some(o)
            &&& n.waited(h, tid).obj(src) == Some(t.obj(src)->0.waited(tid))
            &&& n.waited(src, tid).obj(h) == Some(t.obj(src)->0.waited(tid))
            &&& n.without(src).obj(h) == t.obj(src)
            &&& n.without(h).obj(src) == t.obj(src)
        }),
{
    lemma_with_dup_wf(t, src, h);
    lemma_without_wf(t.with_dup(src, h), src);
    lemma_without_wf(t.with_dup(src, h), h);
}

/// A signaled auto-reset event that is waited for through a duplicated handle is not
/// signaled through the other one; set through that one, it is signaled through the
/// duplicate, also once the other handle is closed.
pub proof fn lemma_dup_event(t: TableView, src: u64, h: u64, tid: u32, other: u32)
    requires
        t.wf(),
        can_dup(t, src),
        !t.handles.contains_key(h),
        t.obj(src) == Some(KObject::Event { manual_reset: false, signaled: true }),
    ensures
        ({
            let n = t.with_dup(src, h);
            let w = n.waited(h, tid);
            let s = w.with_obj(src, w.obj(src)->0.after(SignalOp::SetEvent, other, 0).obj);
            &&& n.signaled(h, tid)
            &&& w.obj(src) is Some
            &&& !w.signaled(src, other)
            &&& !w.signaled(h, other)
            &&& s.signaled(h, tid)
            &&& s.signaled(src, tid)
            &&& s.without(src).obj(h) == Some(
                KObject::Event { manual_reset: false, signaled: true },
            )
        }),
{
    lemma_with_dup_wf(t, src, h);
    let n = t.with_dup(src, h);
    let w = n.waited(h, tid);
    let s = w.with_obj(src, w.obj(src)->0.after(SignalOp::SetEvent, other, 0).obj);
    lemma_with_obj_wf(n, h, n.obj(h)->0.waited(tid), 0);
    lemma_with_obj_wf(w, src, w.obj(src)->0.after(SignalOp::SetEvent, other, 0).obj, 0);
    lemma_without_wf(s, src);
}

/// A wait on any of several handles that can be satisfied stops at the first
/// signaled one, before which nothing is consumed.
pub proof fn lemma_first_signaled(t: TableView, hs: Seq<u64>, tid: u32)
    requires
        t.satisfiable(hs, false, tid),
    ensures
        ({
            let i = first_index(hs, t.signals(tid))->0;
            &&& 0 <= i < hs.len()
            &&& t.signaled(hs[i], tid)
            &&& forall|j: int| 0 <= j < i ==> !t.signaled(#[trigger] hs[j], tid)
        }),
{
    lemma_first_index(hs, t.signals(tid));
    let i = first_index(hs, t.signals(tid))->0;
    assert forall|j: int| 0 <= j < i implies !t.signaled(#[trigger] hs[j], tid) by {
        assert(!t.signals(tid)(hs[j]));
    }
}

impl ObjectTable {
    /// No object.
    pub fn new() -> (t: ObjectTable)
        ensures
            t@.handles == Map::<u64, u64>::empty(),
            t@.objects == Map::<u64, Shared>::empty(),
            t@.wf(),
            t.names@ == Map::<Seq<char>, u64>::empty(),
    {
        ObjectTable { handles: HashMap::new(), objects: HashMap::new(), names: StrMap::new() }
    }

    /// The object that a handle names.
    pub fn get(&self, h: u64) -> (r: Option<KObject>)
        requires
            self@.wf(),
        ensures
            r == self@.obj(h),
    {
        match self.handles.get(&h) {
            Some(id) => {
                assert(self.objects@.contains_key(*id));
                match self.objects.get(id) {
                    Some(s) => Some(s.obj),
                    None => None,
                }
            },
            None => None,
        }
    }

    /// Replace the object that a known handle names.
    pub fn set(&mut self, h: u64, o: KObject)
        requires
            old(self)@.wf(),
            old(self)@.handles.contains_key(h),
        ensures
            final(self)@ == old(self)@.with_obj(h, o),
            final(self)@.wf(),
            final(self).names == old(self).names,
    {
        proof {
            lemma_with_obj_wf(self@, h, o, 0);
        }
        assert(self.objects@.contains_key(self.handles@[h]));
        match self.handles.get(&h) {
            Some(id) => {
                let i: u64 = *id;
                match self.objects.get(&i) {
                    Some(s) => {
                        let refs: u64 = s.refs;
                        let _prev = self.objects.insert(i, Shared { obj: o, refs });
                    },
                    None => {},
                }
            },
            None => {},
        }
    }

    /// Add an object under a fresh handle.
    pub fn add_object(&mut self, h: u64, o: KObject)
        requires
            old(self)@.wf(),
            !old(self)@.handles.contains_key(h),
            !old(self)@.objects.contains_key(h),
        ensures
            final(self)@ == old(self)@.with_new(h, o),
            final(self)@.wf(),
            final(self).names == old(self).names,
    {
        proof {
            lemma_with_new_wf(self@, h, o);
        }
        let _a = self.handles.insert(h, h);
        let _b = self.objects.insert(h, Shared { obj: o, refs: 1 });
    }

    /// Give the object that `src` names one more handle.
    pub fn duplicate(&mut self, src: u64, h: u64) -> (r: bool)
        requires
            old(self)@.wf(),
            !old(self)@.handles.contains_key(h),
        ensures
            final(self)@.wf(),
            final(self).names == old(self).names,
            r <==> can_dup(old(self)@, src),
            r ==> final(self)@ == old(self)@.with_dup(src, h),
            !r ==> final(self)@ == old(self)@,
    {
        let id: u64 = match self.handles.get(&src) {
            Some(id) => *id,
            None => {
                return false;
            },
        };
        assert(self.objects@.contains_key(id));
        match self.objects.get(&id) {
            Some(s) => {
                let s: Shared = *s;
                if s.refs == u64::MAX {
                    return false;
                }
                proof {
                    lemma_with_dup_wf(self@, src, h);
                }
                let _a = self.handles.insert(h, id);
                let _b = self.objects.insert(id, Shared { obj: s.obj, refs: s.refs + 1 });
                true
            },
            None => false,
        }
    }

    /// Drop a handle; returns whether it named an object.
    pub fn close(&mut self, h: u64) -> (r: bool)
        requires
            old(self)@.wf(),
        ensures
            final(self)@.wf(),
            r == old(self)@.handles.contains_key(h),
            r ==> final(self)@ == old(self)@.without(h),
            !r ==> final(self)@ == old(self)@,
            final(self).names == old(self).names,
    {
        let id: u64 = match self.handles.get(&h) {
            Some(id) => *id,
            None => {
                return false;
            },
        };
        proof {
            lemma_without_wf(self@, h);
        }
        assert(self.objects@.contains_key(id));
        let _a = self.handles.remove(&h);
        match self.objects.get(&id) {
            Some(s) => {
                let s: Shared = *s;
                if s.refs <= 1 {
                    let _b = self.objects.remove(&id);
                } else {
                    let _b = self.objects.insert(id, Shared { obj: s.obj, refs: s.refs - 1 });
                }
            },
            None => {},
        }
        true
    }

    /// Whether a wait by `tid` on `h` is satisfied; an unknown handle counts as
    /// signaled.
    pub fn is_signaled(&self, h: u64, tid: u32) -> (r: bool)
        requires
            self@.wf(),
        ensures
            r == self@.signaled(h, tid),
    {
        match self.get(h) {
            Some(o) => o.is_signaled(tid),
            None => true,
        }
    }

    /// Satisfy a wait by `tid` on `h` if it is signaled, consuming its state.
    pub fn acquire(&mut self, h: u64, tid: u32) -> (r: bool)
        requires
            old(self)@.wf(),
        ensures
            final(self)@.wf(),
            r == old(self)@.signaled(h, tid),
            final(self)@ == old(self)@.waited(h, tid),
            final(self).names == old(self).names,
    {
        match self.get(h) {
            Some(o) => {
                let mut o = o;
                let got: bool = o.acquire(tid);
                self.set(h, o);
                got
            },
            None => true,
        }
    }

    /// Whether a wait by `tid` on all, or on any, of the handles is satisfied.
    pub fn wait_satisfiable(&self, hs: &Vec<u64>, all: bool, tid: u32) -> (r: bool)
        requires
            self@.wf(),
        ensures
            r == self@.satisfiable(hs@, all, tid),
    {
        let mut i: usize = 0;
        while i < hs.len()
            invariant
                i <= hs.len(),
                self@.wf(),
                all ==> forall|j: int| 0 <= j < i ==> self@.signaled(#[trigger] hs@[j], tid),
                !all ==> forall|j: int|
                    0 <= j < i ==> !self@.signals(tid)(#[trigger] hs@[j]),
            decreases hs.len() - i,
        {
            let s: bool = self.is_signaled(hs[i], tid);
            if all && !s {
                return false;
            }
            if !all && s {
                proof {
                    lemma_first_index_is(hs@, self@.signals(tid), i as int);
                }
                return true;
            }
            i = i + 1;
        }
        proof {
            if !all {
                lemma_first_index_none(hs@, self@.signals(tid));
            }
        }
        all
    }

    /// Satisfy waits on all of the handles, in order.
    pub fn acquire_all(&mut self, hs: &Vec<u64>, tid: u32)
        requires
            old(self)@.wf(),
        ensures
            final(self)@.wf(),
            final(self)@ == old(self)@.waited_all(hs@, tid),
            final(self).names == old(self).names,
    {
        let mut i: usize = 0;
        let ghost t = self@;
        assert(hs@.take(0) =~= Seq::empty());
        while i < hs.len()
            invariant
                i <= hs.len(),
                self@.wf(),
                self@ == t.waited_all(hs@.take(i as int), tid),
                self.names == old(self).names,
            decreases hs.len() - i,
        {
            let _got = self.acquire(hs[i], tid);
            i = i + 1;
            assert(hs@.take(i as int).drop_last() =~= hs@.take(i - 1));
        }
        assert(hs@.take(i as int) =~= hs@);
    }

    /// The first of the handles whose wait is satisfied.
    pub fn first_signaled(&self, hs: &Vec<u64>, tid: u32) -> (r: Option<usize>)
        requires
            self@.wf(),
        ensures
            match r {
                Some(i) => first_index(hs@, self@.signals(tid)) == Some(i as int) && i < hs.len(),
                None => first_index(hs@, self@.signals(tid)) is None,
            },
    {
        let mut i: usize = 0;
        while i < hs.len()
            invariant
                i <= hs.len(),
                self@.wf(),
                forall|j: int| 0 <= j < i ==> !self@.signals(tid)(#[trigger] hs@[j]),
            decreases hs.len() - i,
        {
            if self.is_signaled(hs[i], tid) {
                proof {
                    lemma_first_index_is(hs@, self@.signals(tid), i as int);
                }
                return Some(i);
            }
            i = i + 1;
        }
        proof {
            lemma_first_index_none(hs@, self@.signals(tid));
        }
        None
    }

    /// The first name that leads to a handle.
    fn name_of(&self, h: u64) -> (r: Option<usize>)
        ensures
            match r {
                Some(i) => i < self.names.keys().len() && self.names@[self.names.keys()[i as int]]
                    == h,
                None => forall|k: Seq<char>| #[trigger]
                    self.names@.contains_key(k) ==> self.names@[k] != h,
            },
    {
        let n: usize = self.names.len();
        self.names.keys_listed();
        let mut i: usize = 0;
        while i < n
            invariant
                i <= n == self.names.keys().len(),
                forall|j: int|
                    0 <= j < i ==> self.names@[#[trigger] self.names.keys()[j]] != h,
            decreases n - i,
        {
            if *self.names.value_at(i) == h {
                return Some(i);
            }
            i = i + 1;
        }
        assert forall|k: Seq<char>| #[trigger] self.names@.contains_key(k) implies self.names@[k]
            != h by {
            assert(self.names.keys().contains(k));
            let j = choose|j: int| 0 <= j < self.names.keys().len() && self.names.keys()[j] == k;
            assert(self.names@[self.names.keys()[j]] != h);
        }
        None
    }

    /// Forget every name that leads to the handle `h`.
    pub fn forget_names(&mut self, h: u64)
        ensures
            final(self)@ == old(self)@,
            final(self).names@ == old(self).names@.remove_keys(
                Set::new(
                    |k: Seq<char>| old(self).names@.contains_key(k) && old(self).names@[k] == h,
                ),
            ),
    {
        let ghost start = self.names@;
        let ghost gone = Set::new(|k: Seq<char>| start.contains_key(k) && start[k] == h);
        loop
            invariant
                self@ == old(self)@,
                self.names@.dom().subset_of(start.dom()),
                gone == Set::new(|k: Seq<char>| start.contains_key(k) && start[k] == h),
                forall|k: Seq<char>| #[trigger]
                    self.names@.contains_key(k) ==> self.names@[k] == start[k],
                forall|k: Seq<char>| #[trigger]
                    start.contains_key(k) && start[k] != h ==> self.names@.contains_key(k),
            ensures
                self.names@ == start.remove_keys(gone),
            decreases self.names.keys().len(),
        {
            match self.name_of(h) {
                Some(i) => {
                    self.names.keys_listed();
                    let key: String = self.names.key_at(i).clone();
                    assert(self.names.keys().contains(key@));
                    let _v = self.names.remove(key.as_str());
                },
                None => {
                    assert(self.names@ =~= start.remove_keys(gone));
                    break;
                },
            }
        }
    }
}

} // verus!
