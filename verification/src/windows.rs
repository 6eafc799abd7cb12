//! Windows that the application draws itself, and drawing.

use vstd::prelude::*;

use crate::call::{answer_stores, arg, arg_at, args, args_at, Outcome};
use crate::cb::{call_views, CallView, Callback};
use crate::cpu::{CpuState, CpuView};
use crate::gdi::{
    created, fill_color, filled, outlined, paint_part, paint_table, rect_at, registered, rgb,
    stock_object, Dc, GdiView, ObjectView, Rect, WindowSpec, FAKE_HANDLE, HDC_HANDLE, HWND_CUSTOM,
    WM_CLOSE, WM_CREATE, WM_DESTROY,
};
use crate::gstr::{read_wstr_units, units_at};
use crate::mem::{s64, store64, Fault, MemView, VirtualMemory};
use crate::msg::{msg_loads, read_msg};
use crate::os::{OsOut, OsReply, OsView, WinOs};
use crate::serve::{answered, failed};
use crate::text::{decode_utf16_lossy, utf16_lossy};
use crate::ui::{Effect, EffectView};

verus! {

/// The size of the record that a window procedure is created with.
pub const CREATE_RECORD: u64 = 80;

// ---- windows ----------------------------------------------------------------

/// `RegisterClass`.
#[verifier::opaque]
pub open spec fn register_out(v: OsView, c: CpuView, m: MemView, ex: bool) -> OsReply {
    match arg_at(v.wide(), c, m, 0) {
        Err(f) => OsReply { os: v, mem: m, r: Err(f) },
        Ok(p) => {
            let o = registered(v.gdi, v.wide(), m, p, ex);
            OsReply { os: OsView { gdi: o.0, ..v }, mem: m, r: o.1.r }
        },
    }
}

/// The window that the arguments of `CreateWindowEx` describe.
pub open spec fn window_spec(a: Seq<u64>) -> WindowSpec {
    WindowSpec {
        class_ptr: a[1],
        name_ptr: a[2],
        style: a[3] as u32,
        ex_style: a[0] as u32,
        x: a[4] as i32,
        y: a[5] as i32,
        width: (a[6] as u32) as i64,
        height: (a[7] as u32) as i64,
        parent: a[8],
    }
}

/// The numbers of the arguments of `CreateWindowEx` that matter.
pub open spec fn window_args() -> Seq<u64> {
    seq![0, 1, 2, 3, 4, 5, 6, 7, 8, 11]
}

/// The call that tells a window procedure that its window was created.
pub open spec fn create_call(wndproc: u64, hwnd: u64, record: u64) -> CallView {
    CallView { func: wndproc, args: seq![hwnd, WM_CREATE, 0, record] }
}

/// A window that was created: its procedure is told, with a record that leads to
/// the parameter, and then the call answers with the window.
pub open spec fn announced(v: OsView, c: CpuView, m: MemView, hwnd: u64, param: u64) -> OsOut {
    let record = v.fresh_block(CREATE_RECORD);
    let w = v.heap_asked(CREATE_RECORD);
    if record == 0 {
        w.calling(c, m, seq![create_call(w.gdi.wndproc, hwnd, record)], hwnd, 12, false)
    } else {
        let s = m.store(s64(record, param));
        match s.fault {
            Some(f) => OsOut { os: w, cpu: c, mem: s.mem, r: Err(f) },
            None => w.calling(
                c,
                s.mem,
                seq![create_call(w.gdi.wndproc, hwnd, record)],
                hwnd,
                12,
                false,
            ),
        }
    }
}

/// `CreateWindowEx`: of a class that is not registered there is only a handle. The
/// procedure of the first window is told; a later window is answered alone.
#[verifier::opaque]
pub open spec fn create_window_out(v: OsView, c: CpuView, m: MemView) -> OsOut {
    match args_at(v.wide(), c, m, window_args()) {
        Err(f) => failed(v, c, m, f),
        Ok(a) => {
            let o = created(v.gdi, v.ui, m, window_spec(a));
            let w = OsView { gdi: o.gdi, ui: o.ui, ..v };
            match o.r {
                Err(f) => failed(w, c, m, f),
                Ok(None) => answered(w, c, m, FAKE_HANDLE),
                Ok(Some(hwnd)) => if hwnd == HWND_CUSTOM {
                    announced(w, c, m, hwnd, a[9])
                } else {
                    answered(w, c, m, hwnd)
                },
            }
        },
    }
}

/// `DefWindowProc`: a window that is destroyed or closed ends the loop.
#[verifier::opaque]
pub open spec fn default_proc_out(v: OsView, c: CpuView, m: MemView) -> OsReply {
    match arg_at(v.wide(), c, m, 1) {
        Err(f) => OsReply { os: v, mem: m, r: Err(f) },
        Ok(msg) => OsReply {
            os: if msg == WM_DESTROY {
                OsView { quit_posted: true, ..v }
            } else if msg == WM_CLOSE {
                OsView { ui: v.ui.closed(), quit_posted: true, ..v }
            } else {
                v
            },
            mem: m,
            r: Ok(0),
        },
    }
}

/// `DispatchMessage`: the message goes to the procedure of its window.
#[verifier::opaque]
pub open spec fn dispatch_message_out(v: OsView, c: CpuView, m: MemView) -> OsOut {
    match arg_at(v.wide(), c, m, 0) {
        Err(f) => failed(v, c, m, f),
        Ok(p) => match m.load_all(msg_loads(v.wide(), p)) {
            Err(f) => failed(v, c, m, f),
            Ok(x) => if v.gdi.proc_of(x[0]) == 0 {
                answered(v, c, m, 0)
            } else {
                v.calling(
                    c,
                    m,
                    seq![CallView { func: v.gdi.proc_of(x[0]), args: x }],
                    0,
                    1,
                    false,
                )
            },
        },
    }
}

/// `BeginPaint`.
#[verifier::opaque]
pub open spec fn begin_paint_out(v: OsView, c: CpuView, m: MemView) -> OsReply {
    match args_at(v.wide(), c, m, seq![0, 1]) {
        Err(f) => OsReply { os: v, mem: m, r: Err(f) },
        Ok(a) => {
            let o = answer_stores(
                m,
                paint_table(a[1], paint_part(v.gdi, a[0], v.ui.client)),
                HDC_HANDLE,
            );
            OsReply {
                os: if o.r is Ok {
                    OsView { gdi: v.gdi.painted(a[0]), ..v }
                } else {
                    v
                },
                mem: o.mem,
                r: o.r,
            }
        },
    }
}

impl WinOs {
    /// Serve `RegisterClass`.
    pub fn register_class(&mut self, cpu: &CpuState, mem: &VirtualMemory, ex: bool) -> (r: Result<u64, Fault>)
        requires
            old(self).wf(),
        ensures
            final(self).wf(),
            final(self).thunks == old(self).thunks,
            (OsReply { os: final(self)@, mem: mem@, r }) == register_out(
                old(self)@,
                cpu@,
                mem@,
                ex,
            ),
    {
        proof {
            reveal(register_out);
        }
        let p: u64 = match arg(self.cfg.is_64bit, cpu, mem, 0) {
            Ok(p) => p,
            Err(f) => {
                return Err(f);
            },
        };
        self.gdi.register_class(self.cfg.is_64bit, mem, p, ex)
    }

    /// Tell a window procedure that its window was created.
    fn announce(&mut self, cpu: &mut CpuState, mem: &mut VirtualMemory, hwnd: u64, param: u64) -> (r:
        Result<Outcome, Fault>)
        requires
            old(self).wf(),
        ensures
            final(self).wf(),
            final(self).thunks == old(self).thunks,
            (OsOut { os: final(self)@, cpu: final(cpu)@, mem: final(mem)@, r }) == announced(
                old(self)@,
                old(cpu)@,
                old(mem)@,
                hwnd,
                param,
            ),
    {
        let record: u64 = self.heap_alloc(CREATE_RECORD);
        if record != 0 {
            match mem.store(store64(record, param)) {
                Ok(_) => {},
                Err(f) => {
                    return Err(f);
                },
            }
        }
        let list: Vec<u64> = vec![hwnd, WM_CREATE, 0, record];
        assert(list@ =~= seq![hwnd, WM_CREATE, 0, record]);
        let wndproc: u64 = self.gdi.wndproc;
        let calls: Vec<Callback> = vec![Callback { func: wndproc, args: list }];
        assert(call_views(calls@) =~= seq![create_call(wndproc, hwnd, record)]);
        self.invoke(cpu, mem, calls, hwnd, 12, false)
    }

    /// Serve `CreateWindowEx`.
    pub fn create_window(&mut self, cpu: &mut CpuState, mem: &mut VirtualMemory) -> (r: Result<
        Outcome,
        Fault,
    >)
        requires
            old(self).wf(),
            old(self).has_room(),
        ensures
            final(self).wf(),
            final(self).thunks == old(self).thunks,
            (OsOut { os: final(self)@, cpu: final(cpu)@, mem: final(mem)@, r }) == create_window_out(
                old(self)@,
                old(cpu)@,
                old(mem)@,
            ),
    {
        proof {
            reveal(create_window_out);
        }
        let list: Vec<u64> = vec![0, 1, 2, 3, 4, 5, 6, 7, 8, 11];
        assert(list@ =~= window_args());
        let a = match args(self.cfg.is_64bit, cpu, mem, &list) {
            Ok(a) => a,
            Err(f) => {
                return Err(f);
            },
        };
        let s = WindowSpec {
            class_ptr: a[1],
            name_ptr: a[2],
            style: a[3] as u32,
            ex_style: a[0] as u32,
            x: a[4] as i32,
            y: a[5] as i32,
            width: (a[6] as u32) as i64,
            height: (a[7] as u32) as i64,
            parent: a[8],
        };
        assert(s == window_spec(a@));
        match self.gdi.create_window(&mut self.ui, mem, &s) {
            Err(f) => Err(f),
            Ok(None) => Ok(Outcome::Return(FAKE_HANDLE)),
            Ok(Some(hwnd)) => if hwnd == HWND_CUSTOM {
                self.announce(cpu, mem, hwnd, a[9])
            } else {
                Ok(Outcome::Return(hwnd))
            },
        }
    }

    /// Serve `DefWindowProc`.
    pub fn default_window_proc(&mut self, cpu: &CpuState, mem: &VirtualMemory) -> (r: Result<u64, Fault>)
        requires
            old(self).wf(),
        ensures
            final(self).wf(),
            final(self).thunks == old(self).thunks,
            (OsReply { os: final(self)@, mem: mem@, r }) == default_proc_out(
                old(self)@,
                cpu@,
                mem@,
            ),
    {
        proof {
            reveal(default_proc_out);
        }
        let msg: u64 = match arg(self.cfg.is_64bit, cpu, mem, 1) {
            Ok(p) => p,
            Err(f) => {
                return Err(f);
            },
        };
        if msg == WM_DESTROY {
            self.quit_posted = true;
        } else if msg == WM_CLOSE {
            self.ui.close();
            self.quit_posted = true;
        }
        Ok(0)
    }

    /// Serve `DispatchMessage`.
    pub fn dispatch_message(&mut self, cpu: &mut CpuState, mem: &mut VirtualMemory) -> (r: Result<
        Outcome,
        Fault,
    >)
        requires
            old(self).wf(),
        ensures
            final(self).wf(),
            final(self).thunks == old(self).thunks,
            (OsOut { os: final(self)@, cpu: final(cpu)@, mem: final(mem)@, r }) == dispatch_message_out(
                old(self)@,
                old(cpu)@,
                old(mem)@,
            ),
    {
        proof {
            reveal(dispatch_message_out);
        }
        let p: u64 = match arg(self.cfg.is_64bit, cpu, mem, 0) {
            Ok(p) => p,
            Err(f) => {
                return Err(f);
            },
        };
        let x = match read_msg(self.cfg.is_64bit, mem, p) {
            Ok(x) => x,
            Err(f) => {
                return Err(f);
            },
        };
        let wndproc: u64 = self.gdi.window_proc(x[0]);
        if wndproc == 0 {
            return Ok(Outcome::Return(0));
        }
        let ghost xs = x@;
        let calls: Vec<Callback> = vec![Callback { func: wndproc, args: x }];
        assert(call_views(calls@) =~= seq![CallView { func: wndproc, args: xs }]);
        self.invoke(cpu, mem, calls, 0, 1, false)
    }

    /// Serve `BeginPaint`.
    pub fn start_paint(&mut self, cpu: &CpuState, mem: &mut VirtualMemory) -> (r: Result<u64, Fault>)
        requires
            old(self).wf(),
        ensures
            final(self).wf(),
            final(self).thunks == old(self).thunks,
            (OsReply { os: final(self)@, mem: final(mem)@, r }) == begin_paint_out(
                old(self)@,
                cpu@,
                old(mem)@,
            ),
    {
        proof {
            reveal(begin_paint_out);
        }
        let list: Vec<u64> = vec![0, 1];
        assert(list@ =~= seq![0u64, 1]);
        let a = match args(self.cfg.is_64bit, cpu, mem, &list) {
            Ok(a) => a,
            Err(f) => {
                return Err(f);
            },
        };
        self.gdi.begin_paint(mem, self.ui.client, a[0], a[1])
    }

    /// Serve `EndPaint`.
    pub fn end_paint(&mut self) -> (r: u64)
        requires
            old(self).wf(),
        ensures
            final(self).wf(),
            final(self).thunks == old(self).thunks,
            final(self)@ == (OsView { ui: old(self)@.ui.with(EffectView::Present), ..old(self)@ }),
            r == 1,
    {
        self.ui.push(Effect::Present);
        1
    }
}

// ---- drawing ----------------------------------------------------------------

/// `FillRect`.
#[verifier::opaque]
pub open spec fn fill_rect_out(v: OsView, c: CpuView, m: MemView) -> OsReply {
    match args_at(v.wide(), c, m, seq![1, 2]) {
        Err(f) => OsReply { os: v, mem: m, r: Err(f) },
        Ok(a) => match rect_at(m, a[0]) {
            Err(f) => OsReply { os: v, mem: m, r: Err(f) },
            Ok(q) => OsReply {
                os: OsView { ui: v.ui.with(filled(q, fill_color(v.gdi, a[1]))), ..v },
                mem: m,
                r: Ok(1),
            },
        },
    }
}

/// `Rectangle`.
#[verifier::opaque]
pub open spec fn rectangle_out(v: OsView, c: CpuView, m: MemView) -> OsReply {
    match args_at(v.wide(), c, m, seq![1, 2, 3, 4]) {
        Err(f) => OsReply { os: v, mem: m, r: Err(f) },
        Ok(a) => {
            let q = Rect { a: a[0] as i32, b: a[1] as i32, c: a[2] as i32, d: a[3] as i32 };
            OsReply {
                os: OsView {
                    ui: v.ui.with(filled(q, v.gdi.dc.brush_color)).with(
                        outlined(q, v.gdi.dc.pen_color),
                    ),
                    ..v
                },
                mem: m,
                r: Ok(1),
            }
        },
    }
}

/// The first units of a text, no more than `count`.
pub open spec fn first_units(u: Seq<u16>, count: u64) -> Seq<u16> {
    if count < u.len() {
        u.take(count as int)
    } else {
        u
    }
}

/// `TextOut`.
#[verifier::opaque]
pub open spec fn text_out_out(v: OsView, c: CpuView, m: MemView) -> OsReply {
    match args_at(v.wide(), c, m, seq![1, 2, 3, 4]) {
        Err(f) => OsReply { os: v, mem: m, r: Err(f) },
        Ok(a) => match units_at(m, a[2]) {
            Err(f) => OsReply { os: v, mem: m, r: Err(f) },
            Ok(u) => OsReply {
                os: OsView {
                    ui: v.ui.with(
                        EffectView::Text {
                            x: a[0] as i32,
                            y: a[1] as i32,
                            text: utf16_lossy(first_units(u, a[3])),
                            color: v.gdi.dc.text_color,
                        },
                    ),
                    ..v
                },
                mem: m,
                r: Ok(1),
            },
        },
    }
}

/// `SetTextColor`: the color before.
#[verifier::opaque]
pub open spec fn text_color_out(v: OsView, c: CpuView, m: MemView) -> OsReply {
    match arg_at(v.wide(), c, m, 1) {
        Err(f) => OsReply { os: v, mem: m, r: Err(f) },
        Ok(x) => OsReply {
            os: OsView {
                gdi: GdiView { dc: Dc { text_color: rgb(x as u32), ..v.gdi.dc }, ..v.gdi },
                ..v
            },
            mem: m,
            r: Ok(v.gdi.dc.text_color as u64),
        },
    }
}

/// A call that creates a drawing object.
pub open spec fn object_out(v: OsView, m: MemView, o: ObjectView) -> OsReply {
    OsReply {
        os: OsView { gdi: v.gdi.with_object(o), ..v },
        mem: m,
        r: Ok(v.gdi.next_object),
    }
}

/// `CreateSolidBrush`.
#[verifier::opaque]
pub open spec fn brush_out(v: OsView, c: CpuView, m: MemView) -> OsReply {
    match arg_at(v.wide(), c, m, 0) {
        Err(f) => OsReply { os: v, mem: m, r: Err(f) },
        Ok(x) => object_out(v, m, ObjectView::Brush(rgb(x as u32))),
    }
}

/// `CreatePen`.
#[verifier::opaque]
pub open spec fn pen_out(v: OsView, c: CpuView, m: MemView) -> OsReply {
    match arg_at(v.wide(), c, m, 2) {
        Err(f) => OsReply { os: v, mem: m, r: Err(f) },
        Ok(x) => object_out(v, m, ObjectView::Pen(rgb(x as u32))),
    }
}

/// `GetStockObject`.
#[verifier::opaque]
pub open spec fn stock_out(v: OsView, c: CpuView, m: MemView) -> OsReply {
    match arg_at(v.wide(), c, m, 0) {
        Err(f) => OsReply { os: v, mem: m, r: Err(f) },
        Ok(i) => object_out(v, m, stock_object(i)),
    }
}

/// `SelectObject`.
pub open spec fn select_out(v: OsView, c: CpuView, m: MemView) -> OsReply {
    match arg_at(v.wide(), c, m, 1) {
        Err(f) => OsReply { os: v, mem: m, r: Err(f) },
        Ok(h) => {
            let o = v.gdi.selected(h);
            OsReply { os: OsView { gdi: o.0, ..v }, mem: m, r: Ok(o.1) }
        },
    }
}

/// `MoveToEx`, and `LineTo` where `draw`.
#[verifier::opaque]
pub open spec fn move_to_out(v: OsView, c: CpuView, m: MemView, draw: bool) -> OsReply {
    match args_at(v.wide(), c, m, seq![1, 2]) {
        Err(f) => OsReply { os: v, mem: m, r: Err(f) },
        Ok(a) => {
            let x = a[0] as i32;
            let y = a[1] as i32;
            let line = EffectView::Line {
                x0: v.gdi.dc.x,
                y0: v.gdi.dc.y,
                x1: x,
                y1: y,
                color: v.gdi.dc.pen_color,
            };
            OsReply {
                os: OsView {
                    gdi: GdiView { dc: Dc { x, y, ..v.gdi.dc }, ..v.gdi },
                    ui: if draw {
                        v.ui.with(line)
                    } else {
                        v.ui
                    },
                    ..v
                },
                mem: m,
                r: Ok(1),
            }
        },
    }
}

/// `SetPixel`: the color is the answer.
#[verifier::opaque]
pub open spec fn pixel_out(v: OsView, c: CpuView, m: MemView) -> OsReply {
    match args_at(v.wide(), c, m, seq![1, 2, 3]) {
        Err(f) => OsReply { os: v, mem: m, r: Err(f) },
        Ok(a) => OsReply {
            os: OsView {
                ui: v.ui.with(
                    EffectView::Pixel {
                        x: a[0] as i32,
                        y: a[1] as i32,
                        color: rgb(a[2] as u32),
                    },
                ),
                ..v
            },
            mem: m,
            r: Ok((a[2] as u32) as u64),
        },
    }
}

impl WinOs {
    /// Serve `FillRect`.
    pub fn fill_rect(&mut self, cpu: &CpuState, mem: &VirtualMemory) -> (r: Result<u64, Fault>)
        requires
            old(self).wf(),
        ensures
            final(self).wf(),
            final(self).thunks == old(self).thunks,
            (OsReply { os: final(self)@, mem: mem@, r }) == fill_rect_out(
                old(self)@,
                cpu@,
                mem@,
            ),
    {
        proof {
            reveal(fill_rect_out);
        }
        let list: Vec<u64> = vec![1, 2];
        assert(list@ =~= seq![1u64, 2]);
        let a = match args(self.cfg.is_64bit, cpu, mem, &list) {
            Ok(a) => a,
            Err(f) => {
                return Err(f);
            },
        };
        self.gdi.gdi_fill_rect(&mut self.ui, mem, a[0], a[1])
    }

    /// Serve `Rectangle`.
    pub fn rectangle(&mut self, cpu: &CpuState, mem: &VirtualMemory) -> (r: Result<u64, Fault>)
        requires
            old(self).wf(),
        ensures
            final(self).wf(),
            final(self).thunks == old(self).thunks,
            (OsReply { os: final(self)@, mem: mem@, r }) == rectangle_out(
                old(self)@,
                cpu@,
                mem@,
            ),
    {
        proof {
            reveal(rectangle_out);
        }
        let list: Vec<u64> = vec![1, 2, 3, 4];
        assert(list@ =~= seq![1u64, 2, 3, 4]);
        let a = match args(self.cfg.is_64bit, cpu, mem, &list) {
            Ok(a) => a,
            Err(f) => {
                return Err(f);
            },
        };
        let q = Rect { a: a[0] as i32, b: a[1] as i32, c: a[2] as i32, d: a[3] as i32 };
        self.gdi.gdi_rectangle(&mut self.ui, q);
        Ok(1)
    }

    /// Serve `TextOut`.
    pub fn text_out(&mut self, cpu: &CpuState, mem: &VirtualMemory) -> (r: Result<u64, Fault>)
        requires
            old(self).wf(),
        ensures
            final(self).wf(),
            final(self).thunks == old(self).thunks,
            (OsReply { os: final(self)@, mem: mem@, r }) == text_out_out(
                old(self)@,
                cpu@,
                mem@,
            ),
    {
        proof {
            reveal(text_out_out);
        }
        let list: Vec<u64> = vec![1, 2, 3, 4];
        assert(list@ =~= seq![1u64, 2, 3, 4]);
        let a = match args(self.cfg.is_64bit, cpu, mem, &list) {
            Ok(a) => a,
            Err(f) => {
                return Err(f);
            },
        };
        let mut u = match read_wstr_units(mem, a[2]) {
            Ok(u) => u,
            Err(f) => {
                return Err(f);
            },
        };
        let ghost all = u@;
        if a[3] < u.len() as u64 {
            u.truncate(a[3] as usize);
        }
        assert(u@ =~= first_units(all, a@[3]));
        let text = decode_utf16_lossy(&u);
        self.gdi.gdi_text_out(&mut self.ui, a[0] as i32, a[1] as i32, text);
        Ok(1)
    }

    /// Serve `SetTextColor`.
    pub fn change_text_color(&mut self, cpu: &CpuState, mem: &VirtualMemory) -> (r: Result<u64, Fault>)
        requires
            old(self).wf(),
        ensures
            final(self).wf(),
            final(self).thunks == old(self).thunks,
            (OsReply { os: final(self)@, mem: mem@, r }) == text_color_out(
                old(self)@,
                cpu@,
                mem@,
            ),
    {
        proof {
            reveal(text_color_out);
        }
        let x: u64 = match arg(self.cfg.is_64bit, cpu, mem, 1) {
            Ok(p) => p,
            Err(f) => {
                return Err(f);
            },
        };
        Ok(self.gdi.set_text_color(x as u32))
    }

    /// Serve `CreateSolidBrush`.
    pub fn new_brush(&mut self, cpu: &CpuState, mem: &VirtualMemory) -> (r: Result<u64, Fault>)
        requires
            old(self).wf(),
            old(self).has_room(),
        ensures
            final(self).wf(),
            final(self).thunks == old(self).thunks,
            (OsReply { os: final(self)@, mem: mem@, r }) == brush_out(
                old(self)@,
                cpu@,
                mem@,
            ),
    {
        proof {
            reveal(brush_out);
        }
        let x: u64 = match arg(self.cfg.is_64bit, cpu, mem, 0) {
            Ok(p) => p,
            Err(f) => {
                return Err(f);
            },
        };
        Ok(self.gdi.create_solid_brush(x as u32))
    }

    /// Serve `CreatePen`.
    pub fn new_pen(&mut self, cpu: &CpuState, mem: &VirtualMemory) -> (r: Result<u64, Fault>)
        requires
            old(self).wf(),
            old(self).has_room(),
        ensures
            final(self).wf(),
            final(self).thunks == old(self).thunks,
            (OsReply { os: final(self)@, mem: mem@, r }) == pen_out(
                old(self)@,
                cpu@,
                mem@,
            ),
    {
        proof {
            reveal(pen_out);
        }
        let x: u64 = match arg(self.cfg.is_64bit, cpu, mem, 2) {
            Ok(p) => p,
            Err(f) => {
                return Err(f);
            },
        };
        Ok(self.gdi.create_pen(x as u32))
    }

    /// Serve `GetStockObject`.
    pub fn stock(&mut self, cpu: &CpuState, mem: &VirtualMemory) -> (r: Result<u64, Fault>)
        requires
            old(self).wf(),
            old(self).has_room(),
        ensures
            final(self).wf(),
            final(self).thunks == old(self).thunks,
            (OsReply { os: final(self)@, mem: mem@, r }) == stock_out(
                old(self)@,
                cpu@,
                mem@,
            ),
    {
        proof {
            reveal(stock_out);
        }
        let i: u64 = match arg(self.cfg.is_64bit, cpu, mem, 0) {
            Ok(p) => p,
            Err(f) => {
                return Err(f);
            },
        };
        Ok(self.gdi.get_stock_object(i))
    }

    /// Serve `SelectObject`.
    pub fn select(&mut self, cpu: &CpuState, mem: &VirtualMemory) -> (r: Result<u64, Fault>)
        requires
            old(self).wf(),
        ensures
            final(self).wf(),
            final(self).thunks == old(self).thunks,
            (OsReply { os: final(self)@, mem: mem@, r }) == select_out(
                old(self)@,
                cpu@,
                mem@,
            ),
    {
        let h: u64 = match arg(self.cfg.is_64bit, cpu, mem, 1) {
            Ok(p) => p,
            Err(f) => {
                return Err(f);
            },
        };
        Ok(self.gdi.select_object(h))
    }

    /// Serve `MoveToEx` and `LineTo`.
    pub fn move_to(&mut self, cpu: &CpuState, mem: &VirtualMemory, draw: bool) -> (r: Result<u64, Fault>)
        requires
            old(self).wf(),
        ensures
            final(self).wf(),
            final(self).thunks == old(self).thunks,
            (OsReply { os: final(self)@, mem: mem@, r }) == move_to_out(
                old(self)@,
                cpu@,
                mem@,
                draw,
            ),
    {
        proof {
            reveal(move_to_out);
        }
        let list: Vec<u64> = vec![1, 2];
        assert(list@ =~= seq![1u64, 2]);
        let a = match args(self.cfg.is_64bit, cpu, mem, &list) {
            Ok(a) => a,
            Err(f) => {
                return Err(f);
            },
        };
        let x: i32 = a[0] as i32;
        let y: i32 = a[1] as i32;
        if draw {
            self.gdi.gdi_line_to(&mut self.ui, x, y);
        } else {
            self.gdi.gdi_move_to(x, y);
        }
        Ok(1)
    }

    /// Serve `SetPixel`.
    pub fn set_pixel(&mut self, cpu: &CpuState, mem: &VirtualMemory) -> (r: Result<u64, Fault>)
        requires
            old(self).wf(),
        ensures
            final(self).wf(),
            final(self).thunks == old(self).thunks,
            (OsReply { os: final(self)@, mem: mem@, r }) == pixel_out(
                old(self)@,
                cpu@,
                mem@,
            ),
    {
        proof {
            reveal(pixel_out);
        }
        let list: Vec<u64> = vec![1, 2, 3];
        assert(list@ =~= seq![1u64, 2, 3]);
        let a = match args(self.cfg.is_64bit, cpu, mem, &list) {
            Ok(a) => a,
            Err(f) => {
                return Err(f);
            },
        };
        let color: u32 = a[2] as u32;
        self.gdi.gdi_set_pixel(&mut self.ui, a[0] as i32, a[1] as i32, color);
        Ok(color as u64)
    }
}

} // verus!
