//! What the services that are bound by name do: threads, objects, the registry,
//! windows and painting, memory, time and directories.

use vstd::prelude::*;

use crate::call::{answer, answer_stores, arg, arg_at, args, args_at, faulted, Outcome, Reply};
use crate::clock::{date_told, get_system_time};
use crate::cpu::{CpuState, CpuView};
use crate::dispatch::{library_asks, mapped_out};
use crate::files::{tell_text, times_asks, times_reply, told_text, transfer_out};
use crate::fs::{find_first_out, find_next_out, found, fs_kept, FileTable, FsOut, FsView};
use crate::gdi::{font_at, object_reply, rect_at, rect_table, rgb, Dc, GdiView, Rect, HDC_HANDLE};
use crate::gstr::{guest_text, read_text};
use crate::host::{HostReply, HostRequest, RequestView};
use crate::kobj::{
    create_sync_out, open_sync_out, signal_out, wait_multiple, wait_multiple_out, wait_single,
    wait_single_out, ObjCtx, ObjOut, SignalOut, WaitOut,
};
use crate::mem::{ga, s32, Fault, MemView, VirtualMemory};
use crate::msg::{msg_posted, post_out, post_thread_out, translate_out, MsgOut};
use crate::named::{Named, Part};
use crate::ntvm::{vprotect_out, vquery_reply};
use crate::os::{free_slot, slot_value, OsOut, OsReply, OsView, WinOs};
use crate::path::{full_path, full_path_name, sandbox_parts, split_leaf};
use crate::process::load_library_out;
use crate::reg::{
    close_out, create_out, delete_key_out, delete_value_out, enum_key_out, enum_value_out,
    open_out, query_info_out, query_out, set_out, RegOut,
};
use crate::sched::{PostedMsg, SchedView};
use crate::serve::{answered, failed, outcome_of, replied, replied_os, returning};
use crate::sync::{SignalOp, SyncKind};
use crate::thread::{
    count_out, create_thread_out, exit_code_out, exit_thread_out, terminate_thread_out,
};
use crate::time::date_of;
use crate::win::{
    class_reply, get_prop_reply, long_out, move_args, placed, pos_args, rect_reply,
    remove_prop_out, set_prop_out, show_out, WinOut, WM_MOVE, WM_SIZE,
};

verus! {

// ---- calls on one part of the state -----------------------------------------

impl OsView {
    /// The objects, with what new handles come from.
    pub open spec fn obj_ctx(self) -> ObjCtx {
        ObjCtx {
            objects: self.objects,
            names: self.names,
            next: self.next_handle,
            error: self.last_error,
        }
    }
}

/// A call on the objects.
pub open spec fn object_lift(v: OsView, c: CpuView, m: MemView, o: ObjOut) -> OsOut {
    OsOut {
        os: OsView {
            objects: o.ctx.objects,
            names: o.ctx.names,
            next_handle: o.ctx.next,
            last_error: o.ctx.error,
            ..v
        },
        cpu: c,
        mem: m,
        r: outcome_of(o.r),
    }
}

/// A call that signals an object.
pub open spec fn signal_lift(v: OsView, c: CpuView, o: SignalOut) -> OsOut {
    replied(OsView { objects: o.objects, ..v }, c, o.reply)
}

/// A call that waits.
pub open spec fn wait_lift(v: OsView, m: MemView, o: WaitOut) -> OsOut {
    OsOut {
        os: OsView { sched: o.sched, objects: o.objects, ..v },
        cpu: o.cpu,
        mem: m,
        r: o.r,
    }
}

/// A call on the registry.
pub open spec fn reg_lift(v: OsView, c: CpuView, o: RegOut) -> OsOut {
    replied(
        OsView { reg: o.ctx.reg, next_handle: o.ctx.next, last_error: o.ctx.error, ..v },
        c,
        o.reply,
    )
}

/// A call on the message queues.
pub open spec fn message_lift(v: OsView, c: CpuView, m: MemView, o: MsgOut) -> OsOut {
    OsOut {
        os: OsView { sched: o.sched, last_error: o.error, ..v },
        cpu: c,
        mem: m,
        r: outcome_of(o.r),
    }
}

/// `TranslateMessage`.
pub open spec fn translated_out(v: OsView, c: CpuView, m: MemView) -> OsOut {
    let o = translate_out(v.sched, v.wide(), c, m);
    OsOut { os: OsView { sched: o.0, ..v }, cpu: c, mem: m, r: outcome_of(o.1) }
}

/// A call on the windows.
pub open spec fn window_lift(v: OsView, c: CpuView, o: WinOut) -> OsOut {
    replied(OsView { gdi: o.gdi, ..v }, c, o.reply)
}

/// A call on the searches.
pub open spec fn find_lift(v: OsView, c: CpuView, o: FsOut) -> OsOut {
    replied(OsView { files: o.fs, next_handle: o.next, last_error: o.error, ..v }, c, o.reply)
}

// ---- slots ------------------------------------------------------------------

/// `TlsFree` and `FlsFree`.
#[verifier::opaque]
pub open spec fn slot_free_out(v: OsView, c: CpuView, m: MemView, fiber: bool) -> OsOut {
    match arg_at(v.wide(), c, m, 0) {
        Err(f) => failed(v, c, m, f),
        Ok(i) => answered(v.slot_freed(fiber, i), c, m, 1),
    }
}

/// `TlsGetValue` and `FlsGetValue`.
#[verifier::opaque]
pub open spec fn slot_get_out(v: OsView, c: CpuView, m: MemView, fiber: bool) -> OsOut {
    match arg_at(v.wide(), c, m, 0) {
        Err(f) => failed(v, c, m, f),
        Ok(i) => answered(v, c, m, slot_value(v.sched.me(), fiber, i)),
    }
}

/// `TlsSetValue` and `FlsSetValue`.
#[verifier::opaque]
pub open spec fn slot_set_out(v: OsView, c: CpuView, m: MemView, fiber: bool) -> OsOut {
    match args_at(v.wide(), c, m, seq![0, 1]) {
        Err(f) => failed(v, c, m, f),
        Ok(a) => answered(v.slot_set(fiber, a[0], a[1]), c, m, 1),
    }
}

impl WinOs {
    /// Serve `TlsFree` and `FlsFree`.
    fn slot_free(&mut self, cpu: &CpuState, mem: &VirtualMemory, fiber: bool) -> (r: Result<
        Outcome,
        Fault,
    >)
        requires
            old(self).wf(),
        ensures
            final(self).wf(),
            final(self).thunks == old(self).thunks,
            (OsOut { os: final(self)@, cpu: cpu@, mem: mem@, r }) == slot_free_out(
                old(self)@,
                cpu@,
                mem@,
                fiber,
            ),
    {
        proof {
            reveal(slot_free_out);
        }
        match arg(self.cfg.is_64bit, cpu, mem, 0) {
            Ok(i) => {
                let _done = self.tls_free(fiber, i);
                Ok(Outcome::Return(1))
            },
            Err(f) => Err(f),
        }
    }

    /// Serve `TlsGetValue` and `FlsGetValue`.
    fn slot_get(&self, cpu: &CpuState, mem: &VirtualMemory, fiber: bool) -> (r: Result<
        Outcome,
        Fault,
    >)
        requires
            self.wf(),
        ensures
            (OsOut { os: self@, cpu: cpu@, mem: mem@, r }) == slot_get_out(
                self@,
                cpu@,
                mem@,
                fiber,
            ),
    {
        proof {
            reveal(slot_get_out);
        }
        match arg(self.cfg.is_64bit, cpu, mem, 0) {
            Ok(i) => Ok(Outcome::Return(self.tls_get(fiber, i))),
            Err(f) => Err(f),
        }
    }

    /// Serve `TlsSetValue` and `FlsSetValue`.
    fn slot_set(&mut self, cpu: &CpuState, mem: &VirtualMemory, fiber: bool) -> (r: Result<
        Outcome,
        Fault,
    >)
        requires
            old(self).wf(),
        ensures
            final(self).wf(),
            final(self).thunks == old(self).thunks,
            (OsOut { os: final(self)@, cpu: cpu@, mem: mem@, r }) == slot_set_out(
                old(self)@,
                cpu@,
                mem@,
                fiber,
            ),
    {
        proof {
            reveal(slot_set_out);
        }
        let list: Vec<u64> = vec![0, 1];
        assert(list@ =~= seq![0u64, 1]);
        match args(self.cfg.is_64bit, cpu, mem, &list) {
            Ok(a) => {
                let _done = self.tls_set(fiber, a[0], a[1]);
                Ok(Outcome::Return(1))
            },
            Err(f) => Err(f),
        }
    }
}

// ---- objects ----------------------------------------------------------------

impl WinOs {
    /// Serve a create call on the objects.
    fn make_sync(
        &mut self,
        cpu: &mut CpuState,
        mem: &mut VirtualMemory,
        kind: SyncKind,
        ex: bool,
        wide: bool,
    ) -> (r: Result<Outcome, Fault>)
        requires
            old(self).wf(),
            old(self).has_room(),
        ensures
            final(self).wf(),
            final(self).thunks == old(self).thunks,
            (OsOut { os: final(self)@, cpu: final(cpu)@, mem: final(mem)@, r }) == object_lift(
                old(self)@,
                old(cpu)@,
                old(mem)@,
                create_sync_out(
                    old(self)@.obj_ctx(),
                    old(self)@.sched.current_tid,
                    old(self)@.wide(),
                    old(cpu)@,
                    old(mem)@,
                    kind,
                    ex,
                    wide,
                ),
            ),
    {
        proof {
            reveal(crate::kobj::create_sync_out);
        }
        returning(
            self.objects.create_sync(
                &mut self.next_handle,
                &mut self.last_error,
                self.sched.current_tid,
                self.cfg.is_64bit,
                cpu,
                mem,
                kind,
                ex,
                wide,
            ),
        )
    }

    /// Serve an open call on the objects.
    fn find_sync(
        &mut self,
        cpu: &mut CpuState,
        mem: &mut VirtualMemory,
        wide: bool,
    ) -> (r: Result<Outcome, Fault>)
        requires
            old(self).wf(),
        ensures
            final(self).wf(),
            final(self).thunks == old(self).thunks,
            (OsOut { os: final(self)@, cpu: final(cpu)@, mem: final(mem)@, r }) == object_lift(
                old(self)@,
                old(cpu)@,
                old(mem)@,
                open_sync_out(
                    old(self)@.obj_ctx(),
                    old(self)@.wide(),
                    old(cpu)@,
                    old(mem)@,
                    wide,
                ),
            ),
    {
        proof {
            reveal(crate::kobj::open_sync_out);
        }
        let r = self.objects.open_sync(&mut self.last_error, self.cfg.is_64bit, cpu, mem, wide);
        assert(self.objects.ctx(self.next_handle, self.last_error) == self@.obj_ctx());
        returning(r)
    }

    /// Serve a call that signals or releases an object.
    fn signal_object(
        &mut self,
        cpu: &mut CpuState,
        mem: &mut VirtualMemory,
        op: SignalOp,
    ) -> (r: Result<Outcome, Fault>)
        requires
            old(self).wf(),
        ensures
            final(self).wf(),
            final(self).thunks == old(self).thunks,
            (OsOut { os: final(self)@, cpu: final(cpu)@, mem: final(mem)@, r }) == signal_lift(
                old(self)@,
                old(cpu)@,
                signal_out(
                    old(self)@.objects,
                    old(self)@.sched.current_tid,
                    old(self)@.wide(),
                    old(cpu)@,
                    old(mem)@,
                    op,
                ),
            ),
    {
        proof {
            reveal(crate::kobj::signal_out);
        }
        returning(
            self.objects.signal_sync(self.sched.current_tid, self.cfg.is_64bit, cpu, mem, op),
        )
    }

    /// Serve a wait on one object.
    fn wait_for_one(
        &mut self,
        cpu: &mut CpuState,
        mem: &mut VirtualMemory,
    ) -> (r: Result<Outcome, Fault>)
        requires
            old(self).wf(),
        ensures
            final(self).wf(),
            final(self).thunks == old(self).thunks,
            (OsOut { os: final(self)@, cpu: final(cpu)@, mem: final(mem)@, r }) == wait_lift(
                old(self)@,
                old(mem)@,
                wait_single_out(
                    old(self)@.sched,
                    old(self)@.objects,
                    old(self)@.wide(),
                    old(cpu)@,
                    old(mem)@,
                ),
            ),
    {
        proof {
            reveal(crate::kobj::wait_single_out);
        }
        wait_single(&mut self.sched, &mut self.objects, self.cfg.is_64bit, cpu, mem)
    }

    /// Serve a wait on several objects.
    fn wait_for_many(
        &mut self,
        cpu: &mut CpuState,
        mem: &mut VirtualMemory,
    ) -> (r: Result<Outcome, Fault>)
        requires
            old(self).wf(),
        ensures
            final(self).wf(),
            final(self).thunks == old(self).thunks,
            (OsOut { os: final(self)@, cpu: final(cpu)@, mem: final(mem)@, r }) == wait_lift(
                old(self)@,
                old(mem)@,
                wait_multiple_out(
                    old(self)@.sched,
                    old(self)@.objects,
                    old(self)@.wide(),
                    old(cpu)@,
                    old(mem)@,
                ),
            ),
    {
        proof {
            reveal(crate::kobj::wait_multiple_out);
        }
        wait_multiple(&mut self.sched, &mut self.objects, self.cfg.is_64bit, cpu, mem)
    }
}

// ---- windows ----------------------------------------------------------------

/// `IsWindow`.
#[verifier::opaque]
pub open spec fn is_window_reply(v: OsView, c: CpuView, m: MemView) -> Reply {
    match args_at(v.wide(), c, m, seq![0]) {
        Err(f) => faulted(m, f),
        Ok(a) => answer(
            m,
            if v.gdi.windows.contains_key(a[0]) {
                1
            } else {
                0
            },
        ),
    }
}

/// The threads, with messages posted to the running one.
pub open spec fn posted_all(s: SchedView, ms: Seq<PostedMsg>) -> SchedView
    decreases ms.len(),
{
    if ms.len() == 0 {
        s
    } else {
        let t = posted_all(s, ms.drop_last());
        t.with_thread(t.current, msg_posted(t.me(), ms.last()))
    }
}

/// `MoveWindow` and `SetWindowPos`, with the window, its rectangle and the repaint
/// flag that they ask for: the window is told of its new position and size.
#[verifier::opaque]
pub open spec fn placed_out(
    v: OsView,
    c: CpuView,
    m: MemView,
    asked: Result<(u64, Rect, bool), Fault>,
) -> OsOut {
    match asked {
        Err(f) => failed(v, c, m, f),
        Ok(a) => {
            let p = placed(v.gdi, a.0, a.1, a.2);
            answered(OsView { gdi: p.0, sched: posted_all(v.sched, p.1), ..v }, c, m, p.2)
        },
    }
}

/// Posting keeps the threads in order, and the messages in the order of posting.
proof fn lemma_posted_all(s: SchedView, ms: Seq<PostedMsg>)
    requires
        s.wf(),
    ensures
        posted_all(s, ms).wf(),
        posted_all(s, ms).current == s.current,
        posted_all(s, ms).me().msgs == s.me().msgs + ms,
    decreases ms.len(),
{
    if ms.len() == 0 {
        assert(s.me().msgs + ms =~= s.me().msgs);
    } else {
        lemma_posted_all(s, ms.drop_last());
        let t = posted_all(s, ms.drop_last());
        assert(posted_all(s, ms).me().msgs =~= s.me().msgs + ms);
    }
}

/// A window that gets a new position is told of it, and one that gets a new size
/// is told of that, through the queue of the running thread.
pub proof fn lemma_move_tells(v: OsView, c: CpuView, m: MemView, h: u64, r: Rect, repaint: bool)
    requires
        v.sched.wf(),
        v.gdi.windows.contains_key(h),
    ensures
        ({
            let o = placed_out(v, c, m, Ok((h, r, repaint)));
            let w = v.gdi.windows[h].rect;
            let queue = o.os.sched.me().msgs;
            &&& o.os.gdi.windows[h].rect == r
            &&& v.sched.me().msgs.is_prefix_of(queue)
            &&& w.a != r.a || w.b != r.b ==> queue[v.sched.me().msgs.len() as int].message == WM_MOVE
            &&& w.c != r.c || w.d != r.d ==> queue.last().message == WM_SIZE
            &&& w == r ==> queue == v.sched.me().msgs
        }),
{
    reveal(placed_out);
    let ms = placed(v.gdi, h, r, repaint).1;
    lemma_posted_all(v.sched, ms);
    assert(v.sched.me().msgs + Seq::<PostedMsg>::empty() =~= v.sched.me().msgs);
}

impl WinOs {
    /// Serve `MoveWindow`, or `SetWindowPos`.
    fn place_window(&mut self, cpu: &CpuState, mem: &VirtualMemory, pos: bool) -> (r: Result<
        u64,
        Fault,
    >)
        requires
            old(self).wf(),
        ensures
            final(self).wf(),
            final(self).thunks == old(self).thunks,
            replied_os(cpu@, OsReply { os: final(self)@, mem: mem@, r }) == placed_out(
                old(self)@,
                cpu@,
                mem@,
                if pos {
                    pos_args(old(self)@.gdi, old(self)@.wide(), cpu@, mem@)
                } else {
                    move_args(old(self)@.wide(), cpu@, mem@)
                },
            ),
    {
        proof {
            reveal(crate::win::move_args);
            reveal(placed_out);
            reveal(crate::win::pos_args);
        }
        let asked = if pos {
            self.gdi.set_window_pos(self.cfg.is_64bit, cpu, mem)
        } else {
            self.gdi.move_window(self.cfg.is_64bit, cpu, mem)
        };
        let (h, rect, repaint) = match asked {
            Ok(a) => a,
            Err(f) => {
                return Err(f);
            },
        };
        let (ms, done) = self.gdi.reposition(h, rect, repaint);
        let ghost s = self.sched@;
        let mut i: usize = 0;
        assert(ms@.take(0) =~= Seq::empty());
        while i < ms.len()
            invariant
                i <= ms.len(),
                s.wf(),
                self.sched@.wf(),
                self.sched@ == posted_all(s, ms@.take(i as int)),
                *self == (WinOs { sched: self.sched, gdi: self.gdi, ..*old(self) }),
                self.gdi@ == placed(old(self)@.gdi, h, rect, repaint).0,
            decreases ms.len() - i,
        {
            assert(ms@.take(i + 1).drop_last() =~= ms@.take(i as int));
            self.sched.post_internal(ms[i]);
            i += 1;
        }
        assert(ms@.take(i as int) =~= ms@);
        Ok(done)
    }
}

// ---- input ------------------------------------------------------------------

/// `SetFocus`.
#[verifier::opaque]
pub open spec fn focus_out(v: OsView, c: CpuView, m: MemView) -> OsOut {
    match args_at(v.wide(), c, m, seq![0]) {
        Err(f) => failed(v, c, m, f),
        Ok(a) => answered(
            OsView { gdi: GdiView { focus_hwnd: a[0], ..v.gdi }, ..v },
            c,
            m,
            v.gdi.focus_hwnd,
        ),
    }
}

/// `SetCapture`.
#[verifier::opaque]
pub open spec fn capture_out(v: OsView, c: CpuView, m: MemView) -> OsOut {
    match args_at(v.wide(), c, m, seq![0]) {
        Err(f) => failed(v, c, m, f),
        Ok(a) => answered(
            OsView { gdi: GdiView { capture_hwnd: a[0], ..v.gdi }, ..v },
            c,
            m,
            v.gdi.capture_hwnd,
        ),
    }
}

/// `GetKeyState` and `GetAsyncKeyState`.
#[verifier::opaque]
pub open spec fn key_state_out(v: OsView, c: CpuView, m: MemView) -> OsOut {
    match args_at(v.wide(), c, m, seq![0]) {
        Err(f) => failed(v, c, m, f),
        Ok(_) => answered(v, c, m, 0),
    }
}

/// `GetCursorPos`.
#[verifier::opaque]
pub open spec fn cursor_reply(v: OsView, c: CpuView, m: MemView) -> Reply {
    match args_at(v.wide(), c, m, seq![0]) {
        Err(f) => faulted(m, f),
        Ok(a) => answer_stores(
            m,
            if a[0] == 0 {
                Seq::empty()
            } else {
                seq![s32(a[0], 0), s32(ga(a[0], 4), 0)]
            },
            1,
        ),
    }
}

// ---- painting ---------------------------------------------------------------

/// The part of a window that `InvalidateRect` speaks of: the rectangle at `p`, or
/// the whole client area.
pub open spec fn invalid_part(v: OsView, m: MemView, h: u64, p: u64) -> Result<Rect, Fault> {
    let s = v.gdi.client_of(h, v.ui.client);
    if p != 0 {
        rect_at(m, p)
    } else {
        Ok(Rect { a: 0, b: 0, c: s.0, d: s.1 })
    }
}

/// `InvalidateRect`.
#[verifier::opaque]
pub open spec fn invalidate_out(v: OsView, c: CpuView, m: MemView) -> OsOut {
    match args_at(v.wide(), c, m, seq![0, 1]) {
        Err(f) => failed(v, c, m, f),
        Ok(a) => match invalid_part(v, m, a[0], a[1]) {
            Err(f) => failed(v, c, m, f),
            Ok(q) => answered(OsView { gdi: v.gdi.invalidated(a[0], q), ..v }, c, m, 1),
        },
    }
}

/// `ValidateRect`.
#[verifier::opaque]
pub open spec fn validate_out(v: OsView, c: CpuView, m: MemView) -> OsOut {
    match arg_at(v.wide(), c, m, 0) {
        Err(f) => failed(v, c, m, f),
        Ok(h) => answered(OsView { gdi: v.gdi.painted(h), ..v }, c, m, 1),
    }
}

/// `GetUpdateRect`.
#[verifier::opaque]
pub open spec fn update_reply(v: OsView, c: CpuView, m: MemView) -> Reply {
    match args_at(v.wide(), c, m, seq![0, 1]) {
        Err(f) => faulted(m, f),
        Ok(a) => {
            let u = v.gdi.update_of(a[0], v.ui.client);
            let part = if u.0 {
                u.1
            } else {
                Rect { a: 0, b: 0, c: 0, d: 0 }
            };
            answer_stores(
                m,
                rect_table(a[1], part),
                if u.0 {
                    1
                } else {
                    0
                },
            )
        },
    }
}

/// `CreateFontIndirect`.
#[verifier::opaque]
pub open spec fn font_out(v: OsView, c: CpuView, m: MemView) -> OsOut {
    match arg_at(v.wide(), c, m, 0) {
        Err(f) => failed(v, c, m, f),
        Ok(p) => match font_at(m, p) {
            Err(f) => failed(v, c, m, f),
            Ok(o) => answered(
                OsView { gdi: v.gdi.with_object(o), ..v },
                c,
                m,
                v.gdi.next_object,
            ),
        },
    }
}

/// `GetObject`.
#[verifier::opaque]
pub open spec fn get_object_reply(v: OsView, c: CpuView, m: MemView, wide: bool) -> Reply {
    match args_at(v.wide(), c, m, seq![0, 1, 2]) {
        Err(f) => faulted(m, f),
        Ok(a) => object_reply(v.gdi, m, a[0], a[1], a[2], wide),
    }
}

/// `RestoreDC`.
#[verifier::opaque]
pub open spec fn restore_out(v: OsView, c: CpuView, m: MemView) -> OsOut {
    match arg_at(v.wide(), c, m, 1) {
        Err(f) => failed(v, c, m, f),
        Ok(n) => {
            let g = v.gdi.restored((n as i32) as i64);
            answered(OsView { gdi: g.0, ..v }, c, m, g.1)
        },
    }
}

/// `SetBkMode`, or `SetBkColor`.
#[verifier::opaque]
pub open spec fn background_out(v: OsView, c: CpuView, m: MemView, mode: bool) -> OsOut {
    match arg_at(v.wide(), c, m, 1) {
        Err(f) => failed(v, c, m, f),
        Ok(x) => {
            let dc = v.gdi.dc;
            answered(
                OsView {
                    gdi: GdiView {
                        dc: if mode {
                            Dc { bk_mode: x as u32, ..dc }
                        } else {
                            Dc { bk_color: rgb(x as u32), ..dc }
                        },
                        ..v.gdi
                    },
                    ..v
                },
                c,
                m,
                if mode {
                    dc.bk_mode as u64
                } else {
                    dc.bk_color as u64
                },
            )
        },
    }
}

impl WinOs {
    /// Serve `InvalidateRect`.
    fn invalidate(&mut self, cpu: &CpuState, mem: &VirtualMemory) -> (r: Result<u64, Fault>)
        requires
            old(self).wf(),
        ensures
            final(self).wf(),
            final(self).thunks == old(self).thunks,
            replied_os(cpu@, OsReply { os: final(self)@, mem: mem@, r }) == invalidate_out(
                old(self)@,
                cpu@,
                mem@,
            ),
    {
        proof {
            reveal(invalidate_out);
        }
        let list: Vec<u64> = vec![0, 1];
        assert(list@ =~= seq![0u64, 1]);
        match args(self.cfg.is_64bit, cpu, mem, &list) {
            Ok(a) => self.gdi.invalidate_rect(mem, self.ui.client, a[0], a[1]),
            Err(f) => Err(f),
        }
    }

    /// Serve `ValidateRect`.
    fn validate(&mut self, cpu: &CpuState, mem: &VirtualMemory) -> (r: Result<u64, Fault>)
        requires
            old(self).wf(),
        ensures
            final(self).wf(),
            final(self).thunks == old(self).thunks,
            replied_os(cpu@, OsReply { os: final(self)@, mem: mem@, r }) == validate_out(
                old(self)@,
                cpu@,
                mem@,
            ),
    {
        proof {
            reveal(validate_out);
        }
        match arg(self.cfg.is_64bit, cpu, mem, 0) {
            Ok(h) => Ok(self.gdi.validate_rect(h)),
            Err(f) => Err(f),
        }
    }

    /// Serve `GetUpdateRect`.
    fn update_rect(&self, cpu: &CpuState, mem: &mut VirtualMemory) -> (r: Result<u64, Fault>)
        ensures
            (Reply { mem: final(mem)@, r }) == update_reply(self@, cpu@, old(mem)@),
    {
        proof {
            reveal(update_reply);
        }
        let list: Vec<u64> = vec![0, 1];
        assert(list@ =~= seq![0u64, 1]);
        match args(self.cfg.is_64bit, cpu, mem, &list) {
            Ok(a) => self.gdi.get_update_rect(mem, self.ui.client, a[0], a[1]),
            Err(f) => Err(f),
        }
    }

    /// Serve `CreateFontIndirect`.
    fn new_font(&mut self, cpu: &CpuState, mem: &VirtualMemory) -> (r: Result<u64, Fault>)
        requires
            old(self).wf(),
            old(self).has_room(),
        ensures
            final(self).wf(),
            final(self).thunks == old(self).thunks,
            replied_os(cpu@, OsReply { os: final(self)@, mem: mem@, r }) == font_out(
                old(self)@,
                cpu@,
                mem@,
            ),
    {
        proof {
            reveal(font_out);
        }
        match arg(self.cfg.is_64bit, cpu, mem, 0) {
            Ok(p) => self.gdi.create_font_indirect(mem, p),
            Err(f) => Err(f),
        }
    }

    /// Serve `GetObject`.
    fn describe_object(&self, cpu: &CpuState, mem: &mut VirtualMemory, wide: bool) -> (r: Result<
        u64,
        Fault,
    >)
        ensures
            (Reply { mem: final(mem)@, r }) == get_object_reply(self@, cpu@, old(mem)@, wide),
    {
        proof {
            reveal(get_object_reply);
        }
        let list: Vec<u64> = vec![0, 1, 2];
        assert(list@ =~= seq![0u64, 1, 2]);
        match args(self.cfg.is_64bit, cpu, mem, &list) {
            Ok(a) => self.gdi.get_object(mem, a[0], a[1], a[2], wide),
            Err(f) => Err(f),
        }
    }

    /// Serve `RestoreDC`.
    fn bring_back(&mut self, cpu: &CpuState, mem: &VirtualMemory) -> (r: Result<u64, Fault>)
        requires
            old(self).wf(),
        ensures
            final(self).wf(),
            final(self).thunks == old(self).thunks,
            replied_os(cpu@, OsReply { os: final(self)@, mem: mem@, r }) == restore_out(
                old(self)@,
                cpu@,
                mem@,
            ),
    {
        proof {
            reveal(restore_out);
        }
        match arg(self.cfg.is_64bit, cpu, mem, 1) {
            Ok(n) => Ok(self.gdi.restore_dc((n as i32) as i64)),
            Err(f) => Err(f),
        }
    }

    /// Serve `SetBkMode`, or `SetBkColor`.
    fn set_background(&mut self, cpu: &CpuState, mem: &VirtualMemory, mode: bool) -> (r: Result<
        u64,
        Fault,
    >)
        requires
            old(self).wf(),
        ensures
            final(self).wf(),
            final(self).thunks == old(self).thunks,
            replied_os(cpu@, OsReply { os: final(self)@, mem: mem@, r }) == background_out(
                old(self)@,
                cpu@,
                mem@,
                mode,
            ),
    {
        proof {
            reveal(background_out);
        }
        match arg(self.cfg.is_64bit, cpu, mem, 1) {
            Ok(x) => Ok(
                if mode {
                    self.gdi.set_bk_mode(x as u32)
                } else {
                    self.gdi.set_bk_color(x as u32)
                },
            ),
            Err(f) => Err(f),
        }
    }
}

// ---- libraries and directories ----------------------------------------------

/// `DisableThreadLibraryCalls`.
#[verifier::opaque]
pub open spec fn silence_out(v: OsView, c: CpuView, m: MemView) -> OsOut {
    match arg_at(v.wide(), c, m, 0) {
        Err(f) => failed(v, c, m, f),
        Ok(h) => {
            let g = v.dll.silenced(v.cfg.image_base, h);
            answered(
                OsView { dll: g.dll, ..v },
                c,
                m,
                if g.ok {
                    1
                } else {
                    0
                },
            )
        },
    }
}

/// The argument of `FindFirstFile` and `FindFirstFileEx` that points to the record
/// to fill.
pub open spec fn record_arg(ex: bool) -> u64 {
    if ex {
        2
    } else {
        1
    }
}

/// What `FindFirstFile` asks of the host: what the directory of its pattern holds.
pub open spec fn first_asks(v: OsView, c: CpuView, m: MemView, wide: bool) -> RequestView {
    match arg_at(v.wide(), c, m, 0) {
        Err(_) => RequestView::Nothing,
        Ok(p) => match guest_text(m, p, wide) {
            Err(_) => RequestView::Nothing,
            Ok(pattern) => if v.has_files() {
                RequestView::List { path: sandbox_parts(split_leaf(pattern).0) }
            } else {
                RequestView::Nothing
            },
        },
    }
}

/// `FindFirstFile` and `FindFirstFileEx`.
#[verifier::opaque]
pub open spec fn first_out(
    v: OsView,
    c: CpuView,
    m: MemView,
    ex: bool,
    wide: bool,
    host: HostReply,
) -> FsOut {
    match args_at(v.wide(), c, m, seq![0, record_arg(ex)]) {
        Err(f) => fs_kept(v.files, v.next_handle, v.last_error, faulted(m, f)),
        Ok(a) => match guest_text(m, a[0], wide) {
            Err(f) => fs_kept(v.files, v.next_handle, v.last_error, faulted(m, f)),
            Ok(pattern) => find_first_out(
                v.files,
                v.next_handle,
                v.last_error,
                m,
                match host {
                    HostReply::Listing(l) => if v.has_files() {
                        Some(found(l, split_leaf(pattern).1))
                    } else {
                        None
                    },
                    _ => None,
                },
                a[1],
                wide,
            ),
        },
    }
}

/// `FindNextFile`.
#[verifier::opaque]
pub open spec fn next_out(v: OsView, c: CpuView, m: MemView) -> FsOut {
    match args_at(v.wide(), c, m, seq![0, 1]) {
        Err(f) => fs_kept(v.files, v.next_handle, v.last_error, faulted(m, f)),
        Ok(a) => find_next_out(v.files, v.next_handle, v.last_error, m, a[0], a[1]),
    }
}

/// `FindClose`.
#[verifier::opaque]
pub open spec fn find_close_out(v: OsView, c: CpuView, m: MemView) -> OsOut {
    match arg_at(v.wide(), c, m, 0) {
        Err(f) => failed(v, c, m, f),
        Ok(h) => answered(
            OsView { files: FsView { finds: v.files.finds.remove(h), ..v.files }, ..v },
            c,
            m,
            1,
        ),
    }
}

/// `GetFullPathName`: the absolute form of a path.
#[verifier::opaque]
pub open spec fn full_path_reply(v: OsView, c: CpuView, m: MemView) -> Reply {
    match arg_at(v.wide(), c, m, 0) {
        Err(f) => faulted(m, f),
        Ok(p) => match guest_text(m, p, true) {
            Err(f) => faulted(m, f),
            Ok(name) => told_text(v.wide(), c, m, 1, true, full_path(name)),
        },
    }
}

/// The two paths of a move or a copy, and whether the copy must be a new file.
pub open spec fn two_paths(v: OsView, c: CpuView, m: MemView, copy: bool, wide: bool) -> Result<
    (Seq<char>, Seq<char>, bool),
    Fault,
> {
    match args_at(
        v.wide(),
        c,
        m,
        if copy {
            seq![0, 1, 2]
        } else {
            seq![0, 1]
        },
    ) {
        Err(f) => Err(f),
        Ok(a) => match guest_text(m, a[0], wide) {
            Err(f) => Err(f),
            Ok(from) => match guest_text(m, a[1], wide) {
                Err(f) => Err(f),
                Ok(to) => Ok((from, to, copy && a[2] != 0)),
            },
        },
    }
}

/// What a move or a copy asks of the host.
pub open spec fn transfer_asks(v: OsView, c: CpuView, m: MemView, copy: bool, wide: bool) -> RequestView {
    match two_paths(v, c, m, copy, wide) {
        Err(_) => RequestView::Nothing,
        Ok(p) => if !v.has_files() {
            RequestView::Nothing
        } else if copy {
            RequestView::Copy {
                from: sandbox_parts(p.0),
                to: sandbox_parts(p.1),
                fail_if_there: p.2,
            }
        } else {
            RequestView::Move { from: sandbox_parts(p.0), to: sandbox_parts(p.1) }
        },
    }
}

/// `MoveFile` and `CopyFile`.
#[verifier::opaque]
pub open spec fn transferred_out(
    v: OsView,
    c: CpuView,
    m: MemView,
    copy: bool,
    wide: bool,
    host: HostReply,
) -> OsOut {
    match two_paths(v, c, m, copy, wide) {
        Err(f) => failed(v, c, m, f),
        Ok(_) => {
            let t = transfer_out(v, host);
            answered(
                t.0,
                c,
                m,
                if t.1 {
                    1
                } else {
                    0
                },
            )
        },
    }
}

/// The two paths of a move or a copy as they are in the model.
pub open spec fn paths_view(r: Result<(String, String, bool), Fault>) -> Result<
    (Seq<char>, Seq<char>, bool),
    Fault,
> {
    match r {
        Ok(p) => Ok((p.0@, p.1@, p.2)),
        Err(f) => Err(f),
    }
}

impl WinOs {
    /// Serve `DisableThreadLibraryCalls`.
    fn silence(&mut self, cpu: &CpuState, mem: &VirtualMemory) -> (r: Result<u64, Fault>)
        requires
            old(self).wf(),
        ensures
            final(self).wf(),
            final(self).thunks == old(self).thunks,
            replied_os(cpu@, OsReply { os: final(self)@, mem: mem@, r }) == silence_out(
                old(self)@,
                cpu@,
                mem@,
            ),
    {
        proof {
            reveal(silence_out);
        }
        match arg(self.cfg.is_64bit, cpu, mem, 0) {
            Ok(h) => if self.dll.disable_thread_library_calls(self.cfg.image_base, h) {
                Ok(1)
            } else {
                Ok(0)
            },
            Err(f) => Err(f),
        }
    }

    /// What `FindFirstFile` asks of the host.
    fn first_request(&self, cpu: &CpuState, mem: &VirtualMemory, wide: bool) -> (r: HostRequest)
        ensures
            r@ == first_asks(self@, cpu@, mem@, wide),
    {
        let p: u64 = match arg(self.cfg.is_64bit, cpu, mem, 0) {
            Ok(p) => p,
            Err(_) => {
                return HostRequest::Nothing;
            },
        };
        match read_text(mem, p, wide) {
            Ok(pattern) => FileTable::find_request(pattern.as_str(), self.has_sandbox()),
            Err(_) => HostRequest::Nothing,
        }
    }

    /// Serve `FindFirstFile` and `FindFirstFileEx`.
    fn find_first(
        &mut self,
        cpu: &CpuState,
        mem: &mut VirtualMemory,
        ex: bool,
        wide: bool,
        host: &HostReply,
    ) -> (r: Result<u64, Fault>)
        requires
            old(self).wf(),
            old(self).has_room(),
        ensures
            final(self).wf(),
            final(self).thunks == old(self).thunks,
            replied_os(cpu@, OsReply { os: final(self)@, mem: final(mem)@, r }) == find_lift(
                old(self)@,
                cpu@,
                first_out(old(self)@, cpu@, old(mem)@, ex, wide, *host),
            ),
    {
        proof {
            reveal(first_out);
        }
        let record: u64 = if ex {
            2
        } else {
            1
        };
        let list: Vec<u64> = vec![0, record];
        assert(list@ =~= seq![0u64, record_arg(ex)]);
        let a = match args(self.cfg.is_64bit, cpu, mem, &list) {
            Ok(a) => a,
            Err(f) => {
                return Err(f);
            },
        };
        let pattern = match read_text(mem, a[0], wide) {
            Ok(s) => s,
            Err(f) => {
                return Err(f);
            },
        };
        let listing = match host {
            HostReply::Listing(l) => if self.has_sandbox() {
                Some(l)
            } else {
                None
            },
            _ => None,
        };
        self.files.find_first_file(
            &mut self.next_handle,
            &mut self.last_error,
            mem,
            pattern.as_str(),
            listing,
            a[1],
            wide,
        )
    }

    /// Serve `FindNextFile`.
    fn find_next(&mut self, cpu: &CpuState, mem: &mut VirtualMemory) -> (r: Result<u64, Fault>)
        requires
            old(self).wf(),
        ensures
            final(self).wf(),
            final(self).thunks == old(self).thunks,
            replied_os(cpu@, OsReply { os: final(self)@, mem: final(mem)@, r }) == find_lift(
                old(self)@,
                cpu@,
                next_out(old(self)@, cpu@, old(mem)@),
            ),
    {
        proof {
            reveal(next_out);
        }
        let list: Vec<u64> = vec![0, 1];
        assert(list@ =~= seq![0u64, 1]);
        match args(self.cfg.is_64bit, cpu, mem, &list) {
            Ok(a) => self.files.find_next_file(
                &mut self.next_handle,
                &mut self.last_error,
                mem,
                a[0],
                a[1],
            ),
            Err(f) => Err(f),
        }
    }

    /// Serve `FindClose`.
    fn end_find(&mut self, cpu: &CpuState, mem: &VirtualMemory) -> (r: Result<u64, Fault>)
        requires
            old(self).wf(),
        ensures
            final(self).wf(),
            final(self).thunks == old(self).thunks,
            replied_os(cpu@, OsReply { os: final(self)@, mem: mem@, r }) == find_close_out(
                old(self)@,
                cpu@,
                mem@,
            ),
    {
        proof {
            reveal(find_close_out);
        }
        match arg(self.cfg.is_64bit, cpu, mem, 0) {
            Ok(h) => Ok(self.files.find_close(h)),
            Err(f) => Err(f),
        }
    }

    /// Serve `GetFullPathName`.
    fn tell_full_path(&self, cpu: &CpuState, mem: &mut VirtualMemory) -> (r: Result<u64, Fault>)
        ensures
            (Reply { mem: final(mem)@, r }) == full_path_reply(self@, cpu@, old(mem)@),
    {
        proof {
            reveal(full_path_reply);
        }
        let p: u64 = match arg(self.cfg.is_64bit, cpu, mem, 0) {
            Ok(p) => p,
            Err(f) => {
                return Err(f);
            },
        };
        match read_text(mem, p, true) {
            Ok(name) => {
                let full = full_path_name(name.as_str());
                tell_text(self.cfg.is_64bit, cpu, mem, 1, true, full.as_str())
            },
            Err(f) => Err(f),
        }
    }

    /// Read the two paths of a move or a copy.
    fn read_paths(&self, cpu: &CpuState, mem: &VirtualMemory, copy: bool, wide: bool) -> (r: Result<
        (String, String, bool),
        Fault,
    >)
        ensures
            paths_view(r) == two_paths(self@, cpu@, mem@, copy, wide),
    {
        let list: Vec<u64> = if copy {
            vec![0, 1, 2]
        } else {
            vec![0, 1]
        };
        assert(copy ==> list@ =~= seq![0u64, 1, 2]);
        assert(!copy ==> list@ =~= seq![0u64, 1]);
        let a = match args(self.cfg.is_64bit, cpu, mem, &list) {
            Ok(a) => a,
            Err(f) => {
                return Err(f);
            },
        };
        let from = match read_text(mem, a[0], wide) {
            Ok(s) => s,
            Err(f) => {
                return Err(f);
            },
        };
        match read_text(mem, a[1], wide) {
            Ok(to) => Ok((from, to, copy && a[2] != 0)),
            Err(f) => Err(f),
        }
    }

    /// What a move or a copy asks of the host.
    fn transfer_request(&self, cpu: &CpuState, mem: &VirtualMemory, copy: bool, wide: bool) -> (r:
        HostRequest)
        ensures
            r@ == transfer_asks(self@, cpu@, mem@, copy, wide),
    {
        match self.read_paths(cpu, mem, copy, wide) {
            Ok((from, to, new)) => if copy {
                self.copy_request(from.as_str(), to.as_str(), new)
            } else {
                self.move_request(from.as_str(), to.as_str())
            },
            Err(_) => HostRequest::Nothing,
        }
    }

    /// Serve `MoveFile` and `CopyFile`.
    fn transfer(
        &mut self,
        cpu: &CpuState,
        mem: &VirtualMemory,
        copy: bool,
        wide: bool,
        host: &HostReply,
    ) -> (r: Result<u64, Fault>)
        requires
            old(self).wf(),
        ensures
            final(self).wf(),
            final(self).thunks == old(self).thunks,
            replied_os(cpu@, OsReply { os: final(self)@, mem: mem@, r }) == transferred_out(
                old(self)@,
                cpu@,
                mem@,
                copy,
                wide,
                *host,
            ),
    {
        proof {
            reveal(transferred_out);
        }
        match self.read_paths(cpu, mem, copy, wide) {
            Ok(_) => {},
            Err(f) => {
                return Err(f);
            },
        }
        let done: bool = if copy {
            self.copy_file(host)
        } else {
            self.move_file(host)
        };
        if done {
            Ok(1)
        } else {
            Ok(0)
        }
    }
}

// ---- the services -----------------------------------------------------------

/// The services on threads, their storage, and variables of the C runtime.
#[verifier::opaque]
pub open spec fn thread_service(v: OsView, n: Named, c: CpuView, m: MemView, host: HostReply) -> OsOut {
    match n {
        Named::CreateThread { .. } => replied_os(c, create_thread_out(v, c, m)),
        Named::ExitThread { .. } => exit_thread_out(v, c, m),
        Named::TerminateThread => terminate_thread_out(v, c, m),
        Named::ResumeThread => replied_os(c, count_out(v, c, m, false)),
        Named::SuspendThread => replied_os(c, count_out(v, c, m, true)),
        Named::GetExitCodeThread => replied(v, c, exit_code_out(v, c, m)),
        Named::SleepEx => v.yielding(c, m, 0, 2),
        Named::SwitchToThread => v.yielding(
            c,
            m,
            if v.sched.next(v.objects) is Some {
                1
            } else {
                0
            },
            0,
        ),
        Named::SlotAlloc { fiber } => answered(v.slot_allocated(fiber), c, m, free_slot(v.used(fiber)) as u64),
        Named::SlotFree { fiber } => slot_free_out(v, c, m, fiber),
        Named::SlotGet { fiber } => slot_get_out(v, c, m, fiber),
        Named::SlotSet { fiber } => slot_set_out(v, c, m, fiber),
        Named::RuntimeVar { var } => replied_os(c, v.crt_cell(m, var.accessor())),
        _ => answered(v, c, m, 0),
    }
}

/// The services on objects that threads wait for.
#[verifier::opaque]
pub open spec fn sync_service(v: OsView, n: Named, c: CpuView, m: MemView, host: HostReply) -> OsOut {
    match n {
        Named::CreateSync { kind, ex, wide } => object_lift(
            v,
            c,
            m,
            create_sync_out(v.obj_ctx(), v.sched.current_tid, v.wide(), c, m, kind, ex, wide),
        ),
        Named::OpenSync { wide } => object_lift(v, c, m, open_sync_out(v.obj_ctx(), v.wide(), c, m, wide)),
        Named::Signal { op } => signal_lift(v, c, signal_out(v.objects, v.sched.current_tid, v.wide(), c, m, op)),
        Named::WaitSingle { .. } => wait_lift(v, m, wait_single_out(v.sched, v.objects, v.wide(), c, m)),
        Named::WaitMultiple { .. } => wait_lift(v, m, wait_multiple_out(v.sched, v.objects, v.wide(), c, m)),
        _ => answered(v, c, m, 0),
    }
}

/// The services on the registry.
#[verifier::opaque]
pub open spec fn registry_service(v: OsView, n: Named, c: CpuView, m: MemView, host: HostReply) -> OsOut {
    match n {
        Named::RegCreate { wide } => reg_lift(v, c, create_out(v.reg_ctx(), v.wide(), c, m, wide)),
        Named::RegOpen { wide } => reg_lift(v, c, open_out(v.reg_ctx(), v.wide(), c, m, wide)),
        Named::RegSet { wide } => reg_lift(v, c, set_out(v.reg_ctx(), v.wide(), c, m, wide)),
        Named::RegQuery { wide } => reg_lift(v, c, query_out(v.reg_ctx(), v.wide(), c, m, wide)),
        Named::RegClose => reg_lift(v, c, close_out(v.reg_ctx(), v.wide(), c, m)),
        Named::RegDeleteValue { wide } => reg_lift(v, c, delete_value_out(v.reg_ctx(), v.wide(), c, m, wide)),
        Named::RegDeleteKey { wide, .. } => reg_lift(v, c, delete_key_out(v.reg_ctx(), v.wide(), c, m, wide)),
        Named::RegEnumKey { wide } => reg_lift(v, c, enum_key_out(v.reg_ctx(), v.wide(), c, m, wide)),
        Named::RegEnumValue { wide } => reg_lift(v, c, enum_value_out(v.reg_ctx(), v.wide(), c, m, wide)),
        Named::RegQueryInfo => reg_lift(v, c, query_info_out(v.reg_ctx(), v.wide(), c, m)),
        _ => answered(v, c, m, 0),
    }
}

/// The services on windows and their messages.
#[verifier::opaque]
pub open spec fn window_service(v: OsView, n: Named, c: CpuView, m: MemView, host: HostReply) -> OsOut {
    match n {
        Named::PostMessage => message_lift(v, c, m, post_out(v.sched, v.last_error, v.wide(), c, m)),
        Named::PostThreadMessage => message_lift(v, c, m, post_thread_out(v.sched, v.last_error, v.wide(), c, m)),
        Named::TranslateMessage => translated_out(v, c, m),
        Named::WindowLong { set } => window_lift(v, c, long_out(v.gdi, v.wide(), c, m, set)),
        Named::ClassName { wide } => replied(v, c, class_reply(v.gdi, v.wide(), c, m, wide)),
        Named::IsWindow => replied(v, c, is_window_reply(v, c, m)),
        Named::WindowRect => replied(v, c, rect_reply(v.gdi, v.wide(), c, m)),
        Named::ShowWindow => window_lift(v, c, show_out(v.gdi, v.wide(), c, m)),
        Named::SetProp { wide } => window_lift(v, c, set_prop_out(v.gdi, v.wide(), c, m, wide)),
        Named::GetProp { wide } => replied(v, c, get_prop_reply(v.gdi, v.wide(), c, m, wide)),
        Named::RemoveProp { wide } => window_lift(v, c, remove_prop_out(v.gdi, v.wide(), c, m, wide)),
        Named::MoveWindow => placed_out(v, c, m, move_args(v.wide(), c, m)),
        Named::SetWindowPos => placed_out(v, c, m, pos_args(v.gdi, v.wide(), c, m)),
        _ => answered(v, c, m, 0),
    }
}

/// The services on input and painting.
#[verifier::opaque]
pub open spec fn input_service(v: OsView, n: Named, c: CpuView, m: MemView, host: HostReply) -> OsOut {
    match n {
        Named::SetFocus => focus_out(v, c, m),
        Named::GetFocus => answered(v, c, m, v.gdi.focus_hwnd),
        Named::SetCapture => capture_out(v, c, m),
        Named::GetCapture => answered(v, c, m, v.gdi.capture_hwnd),
        Named::ReleaseCapture => answered(OsView { gdi: GdiView { capture_hwnd: 0, ..v.gdi }, ..v }, c, m, 1),
        Named::KeyState => key_state_out(v, c, m),
        Named::CursorPos => replied(v, c, cursor_reply(v, c, m)),
        Named::GetDc => answered(v, c, m, HDC_HANDLE),
        Named::Invalidate => invalidate_out(v, c, m),
        Named::Validate => validate_out(v, c, m),
        Named::UpdateRect => replied(v, c, update_reply(v, c, m)),
        Named::CreateFont => font_out(v, c, m),
        Named::GetObject { wide } => replied(v, c, get_object_reply(v, c, m, wide)),
        Named::SaveDc => answered(
            OsView { gdi: GdiView { saved: v.gdi.saved.push(v.gdi.dc), ..v.gdi }, ..v },
            c,
            m,
            (v.gdi.saved.len() + 1) as u64,
        ),
        Named::RestoreDc => restore_out(v, c, m),
        Named::SetBackground { mode } => background_out(v, c, m, mode),
        _ => answered(v, c, m, 0),
    }
}

/// The services on memory, time, libraries and directories.
#[verifier::opaque]
pub open spec fn system_service(v: OsView, n: Named, c: CpuView, m: MemView, host: HostReply) -> OsOut {
    match n {
        Named::VirtualProtect => mapped_out(v, c, vprotect_out(v.vm, v.last_error, v.wide(), c, m)),
        Named::VirtualQuery => replied(v, c, vquery_reply(v.vm, v.wide(), c, m)),
        Named::SystemTime => replied(v, c, date_told(v.wide(), c, m, date_of(v.clock.filetime))),
        Named::DisableThreadCalls => silence_out(v, c, m),
        Named::LoadLibrary { wide, .. } => load_library_out(v, c, m, wide, n.pops(), host),
        Named::FindFirst { ex, wide } => find_lift(v, c, first_out(v, c, m, ex, wide, host)),
        Named::FindNext => find_lift(v, c, next_out(v, c, m)),
        Named::FindClose => find_close_out(v, c, m),
        Named::FullPath => replied(v, c, full_path_reply(v, c, m)),
        Named::MoveFile { wide, .. } => transferred_out(v, c, m, false, wide, host),
        Named::CopyFile { wide } => transferred_out(v, c, m, true, wide, host),
        Named::FileTime => replied(v, c, times_reply(v, c, m, host)),
        _ => answered(v, c, m, 0),
    }
}

/// What serving a call leads to.
pub open spec fn bound_out(v: OsView, n: Named, c: CpuView, m: MemView, host: HostReply) -> OsOut {
    match n.part() {
        Part::Thread => thread_service(v, n, c, m, host),
        Part::Sync => sync_service(v, n, c, m, host),
        Part::Registry => registry_service(v, n, c, m, host),
        Part::Window => window_service(v, n, c, m, host),
        Part::Input => input_service(v, n, c, m, host),
        Part::System => system_service(v, n, c, m, host),
    }
}

impl WinOs {
    /// Serve the calls on threads, their storage, and variables of the C runtime.
    fn bound_thread(
        &mut self,
        n: Named,
        cpu: &mut CpuState,
        mem: &mut VirtualMemory,
        host: &HostReply,
    ) -> (r: Result<Outcome, Fault>)
        requires
            old(self).wf(),
            old(self).has_room(),
        ensures
            final(self).wf(),
            final(self).thunks == old(self).thunks,
            (OsOut { os: final(self)@, cpu: final(cpu)@, mem: final(mem)@, r }) == thread_service(
                old(self)@,
                n,
                old(cpu)@,
                old(mem)@,
                *host,
            ),
    {
        reveal(thread_service);
        match n {
            Named::CreateThread { .. } => returning(self.create_thread(cpu, mem)),
            Named::ExitThread { .. } => self.api_exit_thread(cpu, mem),
            Named::TerminateThread => self.terminate_thread(cpu, mem),
            Named::ResumeThread => returning(self.resume_thread(cpu, mem)),
            Named::SuspendThread => returning(self.suspend_thread(cpu, mem)),
            Named::GetExitCodeThread => returning(self.get_exit_code_thread(cpu, mem)),
            Named::SleepEx => self.sleep(cpu, mem, 2),
            Named::SwitchToThread => self.switch_to_thread(cpu, mem),
            Named::SlotAlloc { fiber } => Ok(Outcome::Return(self.tls_alloc(fiber))),
            Named::SlotFree { fiber } => self.slot_free(cpu, mem, fiber),
            Named::SlotGet { fiber } => self.slot_get(cpu, mem, fiber),
            Named::SlotSet { fiber } => self.slot_set(cpu, mem, fiber),
            Named::RuntimeVar { var } => returning(self.crt_global(mem, var.accessor_name())),
            _ => Ok(Outcome::Return(0)),
        }
    }

    /// Serve the calls on objects that threads wait for.
    fn bound_sync(
        &mut self,
        n: Named,
        cpu: &mut CpuState,
        mem: &mut VirtualMemory,
        host: &HostReply,
    ) -> (r: Result<Outcome, Fault>)
        requires
            old(self).wf(),
            old(self).has_room(),
        ensures
            final(self).wf(),
            final(self).thunks == old(self).thunks,
            (OsOut { os: final(self)@, cpu: final(cpu)@, mem: final(mem)@, r }) == sync_service(
                old(self)@,
                n,
                old(cpu)@,
                old(mem)@,
                *host,
            ),
    {
        reveal(sync_service);
        match n {
            Named::CreateSync { kind, ex, wide } => self.make_sync(cpu, mem, kind, ex, wide),
            Named::OpenSync { wide } => self.find_sync(cpu, mem, wide),
            Named::Signal { op } => self.signal_object(cpu, mem, op),
            Named::WaitSingle { .. } => self.wait_for_one(cpu, mem),
            Named::WaitMultiple { .. } => self.wait_for_many(cpu, mem),
            _ => Ok(Outcome::Return(0)),
        }
    }

    /// Serve the calls on the registry.
    fn bound_registry(
        &mut self,
        n: Named,
        cpu: &mut CpuState,
        mem: &mut VirtualMemory,
        host: &HostReply,
    ) -> (r: Result<Outcome, Fault>)
        requires
            old(self).wf(),
            old(self).has_room(),
        ensures
            final(self).wf(),
            final(self).thunks == old(self).thunks,
            (OsOut { os: final(self)@, cpu: final(cpu)@, mem: final(mem)@, r }) == registry_service(
                old(self)@,
                n,
                old(cpu)@,
                old(mem)@,
                *host,
            ),
    {
        reveal(registry_service);
        match n {
            Named::RegCreate { wide } => returning(
                self.reg.reg_create(
                    &mut self.next_handle,
                    &mut self.last_error,
                    self.cfg.is_64bit,
                    cpu,
                    mem,
                    wide,
                ),
            ),
            Named::RegOpen { wide } => returning(
                self.reg.reg_open(
                    &mut self.next_handle,
                    &mut self.last_error,
                    self.cfg.is_64bit,
                    cpu,
                    mem,
                    wide,
                ),
            ),
            Named::RegSet { wide } => returning(
                self.reg.reg_set(
                    &mut self.next_handle,
                    &mut self.last_error,
                    self.cfg.is_64bit,
                    cpu,
                    mem,
                    wide,
                ),
            ),
            Named::RegQuery { wide } => returning(
                self.reg.reg_query(
                    &mut self.next_handle,
                    &mut self.last_error,
                    self.cfg.is_64bit,
                    cpu,
                    mem,
                    wide,
                ),
            ),
            Named::RegClose => returning(
                self.reg.reg_close(
                    &mut self.next_handle,
                    &mut self.last_error,
                    self.cfg.is_64bit,
                    cpu,
                    mem,
                ),
            ),
            Named::RegDeleteValue { wide } => returning(
                self.reg.reg_delete_value(
                    &mut self.next_handle,
                    &mut self.last_error,
                    self.cfg.is_64bit,
                    cpu,
                    mem,
                    wide,
                ),
            ),
            Named::RegDeleteKey { wide, .. } => returning(
                self.reg.reg_delete_key(
                    &mut self.next_handle,
                    &mut self.last_error,
                    self.cfg.is_64bit,
                    cpu,
                    mem,
                    wide,
                ),
            ),
            Named::RegEnumKey { wide } => returning(
                self.reg.reg_enum_key(
                    &mut self.next_handle,
                    &mut self.last_error,
                    self.cfg.is_64bit,
                    cpu,
                    mem,
                    wide,
                ),
            ),
            Named::RegEnumValue { wide } => returning(
                self.reg.reg_enum_value(
                    &mut self.next_handle,
                    &mut self.last_error,
                    self.cfg.is_64bit,
                    cpu,
                    mem,
                    wide,
                ),
            ),
            Named::RegQueryInfo => returning(
                self.reg.reg_query_info(
                    &mut self.next_handle,
                    &mut self.last_error,
                    self.cfg.is_64bit,
                    cpu,
                    mem,
                ),
            ),
            _ => Ok(Outcome::Return(0)),
        }
    }

    /// Serve the calls on windows and their messages.
    fn bound_window(
        &mut self,
        n: Named,
        cpu: &mut CpuState,
        mem: &mut VirtualMemory,
        host: &HostReply,
    ) -> (r: Result<Outcome, Fault>)
        requires
            old(self).wf(),
            old(self).has_room(),
        ensures
            final(self).wf(),
            final(self).thunks == old(self).thunks,
            (OsOut { os: final(self)@, cpu: final(cpu)@, mem: final(mem)@, r }) == window_service(
                old(self)@,
                n,
                old(cpu)@,
                old(mem)@,
                *host,
            ),
    {
        reveal(window_service);
        reveal(is_window_reply);
        match n {
            Named::PostMessage => returning(
                self.sched.post_message(&mut self.last_error, self.cfg.is_64bit, cpu, mem),
            ),
            Named::PostThreadMessage => returning(
                self.sched.post_thread_message(&mut self.last_error, self.cfg.is_64bit, cpu, mem),
            ),
            Named::TranslateMessage => returning(self.sched.translate_message(self.cfg.is_64bit, cpu, mem)),
            Named::WindowLong { set } => returning(self.gdi.window_long(self.cfg.is_64bit, cpu, mem, set)),
            Named::ClassName { wide } => returning(self.gdi.get_class_name(self.cfg.is_64bit, cpu, mem, wide)),
            Named::IsWindow => returning(self.gdi.is_window(self.cfg.is_64bit, cpu, mem)),
            Named::WindowRect => returning(self.gdi.get_window_rect(self.cfg.is_64bit, cpu, mem)),
            Named::ShowWindow => returning(self.gdi.show_window(self.cfg.is_64bit, cpu, mem)),
            Named::SetProp { wide } => returning(self.gdi.set_prop(self.cfg.is_64bit, cpu, mem, wide)),
            Named::GetProp { wide } => returning(self.gdi.get_prop(self.cfg.is_64bit, cpu, mem, wide)),
            Named::RemoveProp { wide } => returning(self.gdi.remove_prop(self.cfg.is_64bit, cpu, mem, wide)),
            Named::MoveWindow => returning(self.place_window(cpu, mem, false)),
            Named::SetWindowPos => returning(self.place_window(cpu, mem, true)),
            _ => Ok(Outcome::Return(0)),
        }
    }

    /// Serve the calls on input and painting.
    fn bound_input(
        &mut self,
        n: Named,
        cpu: &mut CpuState,
        mem: &mut VirtualMemory,
        host: &HostReply,
    ) -> (r: Result<Outcome, Fault>)
        requires
            old(self).wf(),
            old(self).has_room(),
        ensures
            final(self).wf(),
            final(self).thunks == old(self).thunks,
            (OsOut { os: final(self)@, cpu: final(cpu)@, mem: final(mem)@, r }) == input_service(
                old(self)@,
                n,
                old(cpu)@,
                old(mem)@,
                *host,
            ),
    {
        reveal(input_service);
        reveal(capture_out);
        reveal(cursor_reply);
        reveal(focus_out);
        reveal(key_state_out);
        match n {
            Named::SetFocus => returning(self.gdi.set_focus(self.cfg.is_64bit, cpu, mem)),
            Named::GetFocus => Ok(Outcome::Return(self.gdi.get_focus())),
            Named::SetCapture => returning(self.gdi.set_capture(self.cfg.is_64bit, cpu, mem)),
            Named::GetCapture => Ok(Outcome::Return(self.gdi.get_capture())),
            Named::ReleaseCapture => Ok(Outcome::Return(self.gdi.release_capture())),
            Named::KeyState => returning(self.gdi.get_key_state(self.cfg.is_64bit, cpu, mem)),
            Named::CursorPos => returning(self.gdi.get_cursor_pos(self.cfg.is_64bit, cpu, mem)),
            Named::GetDc => Ok(Outcome::Return(self.gdi.get_dc(0))),
            Named::Invalidate => returning(self.invalidate(cpu, mem)),
            Named::Validate => returning(self.validate(cpu, mem)),
            Named::UpdateRect => returning(self.update_rect(cpu, mem)),
            Named::CreateFont => returning(self.new_font(cpu, mem)),
            Named::GetObject { wide } => returning(self.describe_object(cpu, mem, wide)),
            Named::SaveDc => Ok(Outcome::Return(self.gdi.save_dc())),
            Named::RestoreDc => returning(self.bring_back(cpu, mem)),
            Named::SetBackground { mode } => returning(self.set_background(cpu, mem, mode)),
            _ => Ok(Outcome::Return(0)),
        }
    }

    /// Serve the calls on memory, time, libraries and directories.
    fn bound_system(
        &mut self,
        n: Named,
        cpu: &mut CpuState,
        mem: &mut VirtualMemory,
        host: &HostReply,
    ) -> (r: Result<Outcome, Fault>)
        requires
            old(self).wf(),
            old(self).has_room(),
        ensures
            final(self).wf(),
            final(self).thunks == old(self).thunks,
            (OsOut { os: final(self)@, cpu: final(cpu)@, mem: final(mem)@, r }) == system_service(
                old(self)@,
                n,
                old(cpu)@,
                old(mem)@,
                *host,
            ),
    {
        reveal(system_service);
        reveal(find_close_out);
        reveal(first_out);
        reveal(full_path_reply);
        reveal(crate::process::load_library_out);
        reveal(next_out);
        reveal(silence_out);
        reveal(crate::files::times_reply);
        reveal(transferred_out);
        reveal(crate::ntvm::vprotect_out);
        reveal(crate::ntvm::vquery_reply);
        match n {
            Named::VirtualProtect => returning(
                self.vm.virtual_protect(&mut self.last_error, self.cfg.is_64bit, cpu, mem),
            ),
            Named::VirtualQuery => returning(self.vm.virtual_query(self.cfg.is_64bit, cpu, mem)),
            Named::SystemTime => returning(get_system_time(&self.clock, self.cfg.is_64bit, cpu, mem)),
            Named::DisableThreadCalls => returning(self.silence(cpu, mem)),
            Named::LoadLibrary { wide, .. } => self.load_library(cpu, mem, wide, n.argc(), host),
            Named::FindFirst { ex, wide } => returning(self.find_first(cpu, mem, ex, wide, host)),
            Named::FindNext => returning(self.find_next(cpu, mem)),
            Named::FindClose => returning(self.end_find(cpu, mem)),
            Named::FullPath => returning(self.tell_full_path(cpu, mem)),
            Named::MoveFile { wide, .. } => returning(self.transfer(cpu, mem, false, wide, host)),
            Named::CopyFile { wide } => returning(self.transfer(cpu, mem, true, wide, host)),
            Named::FileTime => returning(self.set_file_time(cpu, mem, host)),
            _ => Ok(Outcome::Return(0)),
        }
    }

    /// Serve a call.
    pub fn serve_bound(
        &mut self,
        n: Named,
        cpu: &mut CpuState,
        mem: &mut VirtualMemory,
        host: &HostReply,
    ) -> (r: Result<Outcome, Fault>)
        requires
            old(self).wf(),
            old(self).has_room(),
        ensures
            final(self).wf(),
            final(self).thunks == old(self).thunks,
            (OsOut { os: final(self)@, cpu: final(cpu)@, mem: final(mem)@, r }) == bound_out(
                old(self)@,
                n,
                old(cpu)@,
                old(mem)@,
                *host,
            ),
    {
        match n.find_part() {
            Part::Thread => self.bound_thread(n, cpu, mem, host),
            Part::Sync => self.bound_sync(n, cpu, mem, host),
            Part::Registry => self.bound_registry(n, cpu, mem, host),
            Part::Window => self.bound_window(n, cpu, mem, host),
            Part::Input => self.bound_input(n, cpu, mem, host),
            Part::System => self.bound_system(n, cpu, mem, host),
        }
    }
}

/// What a call asks of the host before it can be served.
#[verifier::opaque]
pub open spec fn bound_asks(v: OsView, n: Named, c: CpuView, m: MemView) -> RequestView {
    match n {
        Named::LoadLibrary { wide, .. } => library_asks(v, c, m, wide, true),
        Named::FindFirst { wide, .. } => first_asks(v, c, m, wide),
        Named::MoveFile { wide, .. } => transfer_asks(v, c, m, false, wide),
        Named::CopyFile { wide } => transfer_asks(v, c, m, true, wide),
        Named::FileTime => times_asks(v, c, m),
        _ => RequestView::Nothing,
    }
}

impl WinOs {
    /// What a call asks of the host before it can be served.
    pub fn bound_request(&self, n: Named, cpu: &CpuState, mem: &VirtualMemory) -> (r: HostRequest)
        ensures
            r@ == bound_asks(self@, n, cpu@, mem@),
    {
        reveal(bound_asks);
        match n {
            Named::LoadLibrary { wide, .. } => self.library_request(cpu, mem, wide, true),
            Named::FindFirst { wide, .. } => self.first_request(cpu, mem, wide),
            Named::MoveFile { wide, .. } => self.transfer_request(cpu, mem, false, wide),
            Named::CopyFile { wide } => self.transfer_request(cpu, mem, true, wide),
            Named::FileTime => self.times_request(cpu, mem),
            _ => HostRequest::Nothing,
        }
    }
}

/// The services on threads leave the registers to the return.
proof fn lemma_thread_registers(v: OsView, n: Named, c: CpuView, m: MemView, host: HostReply)
    ensures
        thread_service(v, n, c, m, host).r matches Ok(Outcome::Return(_)) ==> thread_service(
            v,
            n,
            c,
            m,
            host,
        ).cpu == c,
{
    reveal(thread_service);
    reveal(crate::thread::exit_thread_out);
    reveal(slot_free_out);
    reveal(slot_get_out);
    reveal(slot_set_out);
    reveal(crate::thread::terminate_thread_out);
}

/// The services on objects leave the registers to the return.
proof fn lemma_sync_registers(v: OsView, n: Named, c: CpuView, m: MemView, host: HostReply)
    ensures
        sync_service(v, n, c, m, host).r matches Ok(Outcome::Return(_)) ==> sync_service(
            v,
            n,
            c,
            m,
            host,
        ).cpu == c,
{
    reveal(sync_service);
    reveal(crate::kobj::wait_single_out);
    reveal(crate::kobj::wait_multiple_out);
}

/// The services on the registry leave the registers to the return.
proof fn lemma_registry_registers(v: OsView, n: Named, c: CpuView, m: MemView, host: HostReply)
    ensures
        registry_service(v, n, c, m, host).r matches Ok(Outcome::Return(_)) ==> registry_service(
            v,
            n,
            c,
            m,
            host,
        ).cpu == c,
{
    reveal(registry_service);
}

/// The services on windows leave the registers to the return.
proof fn lemma_window_registers(v: OsView, n: Named, c: CpuView, m: MemView, host: HostReply)
    ensures
        window_service(v, n, c, m, host).r matches Ok(Outcome::Return(_)) ==> window_service(
            v,
            n,
            c,
            m,
            host,
        ).cpu == c,
{
    reveal(window_service);
    reveal(placed_out);
}

/// The services on input and painting leave the registers to the return.
proof fn lemma_input_registers(v: OsView, n: Named, c: CpuView, m: MemView, host: HostReply)
    ensures
        input_service(v, n, c, m, host).r matches Ok(Outcome::Return(_)) ==> input_service(
            v,
            n,
            c,
            m,
            host,
        ).cpu == c,
{
    reveal(input_service);
    reveal(background_out);
    reveal(capture_out);
    reveal(focus_out);
    reveal(font_out);
    reveal(invalidate_out);
    reveal(key_state_out);
    reveal(restore_out);
    reveal(validate_out);
}

/// The services on memory, time and directories leave the registers to the return.
proof fn lemma_system_registers(v: OsView, n: Named, c: CpuView, m: MemView, host: HostReply)
    ensures
        system_service(v, n, c, m, host).r matches Ok(Outcome::Return(_)) ==> system_service(
            v,
            n,
            c,
            m,
            host,
        ).cpu == c,
{
    reveal(system_service);
    reveal(find_close_out);
    reveal(crate::process::load_library_out);
    reveal(silence_out);
    reveal(transferred_out);
}

/// A service that answers with a value leaves every register as its caller set it.
pub proof fn lemma_bound_registers(v: OsView, n: Named, c: CpuView, m: MemView, host: HostReply)
    ensures
        bound_out(v, n, c, m, host).r matches Ok(Outcome::Return(_)) ==> bound_out(
            v,
            n,
            c,
            m,
            host,
        ).cpu == c,
{
    lemma_thread_registers(v, n, c, m, host);
    lemma_sync_registers(v, n, c, m, host);
    lemma_registry_registers(v, n, c, m, host);
    lemma_window_registers(v, n, c, m, host);
    lemma_input_registers(v, n, c, m, host);
    lemma_system_registers(v, n, c, m, host);
}

} // verus!
