//! Dialogs, their controls, and the message loop.

use vstd::prelude::*;

use std::collections::HashMap;

use crate::api::{FALSE, TRUE};
use crate::call::{answer_stores, arg, arg_at, args, args_at, Outcome, Reply};
use crate::cb::{
    call_views, command_args, CallView, Callback, Dialog, GuiEvent, IDCANCEL, IDOK, WM_COMMAND,
    WM_INITDIALOG,
};
use crate::cpu::{CpuState, CpuView};
use crate::gdi::{GdiView, WM_LBUTTONDOWN, WM_PAINT};
use crate::gstr::{read_wstr_units, units_at, wide_write, write_wstr_units};
use crate::host::{HostReply, HostRequest, RequestView};
use crate::mem::{opt, push_opt, sptr, store_ptr, Fault, MemView, Store, VirtualMemory};
use crate::msg::{msg_table, msg_taken, next_msg, write_msg_full, WM_QUIT};
use crate::ntreg::finish;
use crate::os::{OsOut, OsReply, OsView, WinOs};
use crate::sched::{PostedMsg, ThreadView};
use crate::serve::{answered, failed, replied};
use crate::text::{decode_utf16_lossy, utf16_lossy};
use crate::ui::{Effect, EffectView, UiView};
use crate::win::{pack, packed};

verus! {

broadcast use vstd::std_specs::hash::group_hash_axioms;

/// The window of the dialog that is shown.
pub const HWND_DIALOG: u64 = 0x00D1_A000;

/// The window of control 0; the others follow by their ids.
pub const HWND_CONTROL: u64 = 0x00C0_0000;

pub const WM_SETTEXT: u32 = 0x000C;

pub const WM_GETTEXT: u32 = 0x000D;

pub const WM_GETTEXTLENGTH: u32 = 0x000E;

pub const PBM_SETRANGE: u32 = 0x0401;

pub const PBM_SETPOS: u32 = 0x0402;

pub const PBM_DELTAPOS: u32 = 0x0403;

pub const PBM_SETRANGE32: u32 = 0x0406;

/// What creating a COM object answers with: there is no such class.
pub const CLASS_NOT_REGISTERED: u64 = 0x8004_0154;

// ---- dialogs ----------------------------------------------------------------

/// The call of a dialog procedure that initializes the dialog.
pub open spec fn init_call(dlgproc: u64, param: u64) -> CallView {
    CallView { func: dlgproc, args: seq![HWND_DIALOG, WM_INITDIALOG, 0, param] }
}

/// The call of a dialog procedure for a command of its user.
pub open spec fn command_call(dlgproc: u64, hwnd: u64, id: u32) -> CallView {
    CallView { func: dlgproc, args: command_args(hwnd, id) }
}

/// Whether a dialog has a template that can be shown.
pub open spec fn has_template(ui: UiView, template: u64) -> bool {
    template < 0x1_0000 && ui.templates.contains(template as u32)
}

/// The calls that start a dialog: it is initialized, and confirmed where nobody can
/// do so.
pub open spec fn dialog_calls(dlgproc: u64, param: u64, live: bool) -> Seq<CallView> {
    if live {
        seq![init_call(dlgproc, param)]
    } else {
        seq![init_call(dlgproc, param), command_call(dlgproc, HWND_DIALOG, IDOK as u32)]
    }
}

/// What starting a dialog answers with, unless its user decides.
pub open spec fn dialog_result(modal: bool, live: bool) -> u64 {
    if !modal {
        HWND_DIALOG
    } else if live {
        IDCANCEL
    } else {
        IDOK
    }
}

/// The state after the dialog of a template was shown, where there is one: it has no result
/// until its user decides.
pub open spec fn dialog_shown(v: OsView, template: u64) -> OsView {
    let shown = has_template(v.ui, template);
    let ui = if shown {
        v.ui.opened(EffectView::OpenDialog { id: template as u32 })
    } else {
        v.ui
    };
    OsView {
        ui,
        dialog: if shown && ui.open {
            Dialog { result: None, ..v.dialog }
        } else {
            v.dialog
        },
        ..v
    }
}

/// What starting the dialog of a template with a procedure leads to: it is shown where it can
/// be, and its procedure is called.
#[verifier::opaque]
pub open spec fn dialog_started(
    v: OsView,
    c: CpuView,
    m: MemView,
    template: u64,
    dlgproc: u64,
    param: u64,
    modal: bool,
) -> OsOut {
    let shown = dialog_shown(v, template);
    let live = has_template(v.ui, template) && shown.ui.open;
    shown.calling(
        c,
        m,
        dialog_calls(dlgproc, param, live),
        dialog_result(modal, live),
        5,
        modal && live,
    )
}

/// `CreateDialogParam`, and `DialogBoxParam` where `modal`. A dialog that is shown
/// is initialized, and its user drives it; one that is not is initialized and
/// confirmed at once.
#[verifier::opaque]
pub open spec fn create_dialog_out(v: OsView, c: CpuView, m: MemView, modal: bool) -> OsOut {
    match args_at(v.wide(), c, m, seq![1, 3, 4]) {
        Err(f) => failed(v, c, m, f),
        Ok(a) => {
            let w = OsView {
                dialog: Dialog { dlgproc: a[1], hwnd: HWND_DIALOG, ..v.dialog },
                ..v
            };
            if a[1] == 0 {
                answered(w, c, m, HWND_DIALOG)
            } else {
                dialog_started(w, c, m, a[0], a[1], a[2], modal)
            }
        },
    }
}

/// `EndDialog`: the result of the dialog, whose window closes.
#[verifier::opaque]
pub open spec fn end_dialog_out(v: OsView, c: CpuView, m: MemView) -> OsReply {
    match arg_at(v.wide(), c, m, 1) {
        Err(f) => OsReply { os: v, mem: m, r: Err(f) },
        Ok(result) => OsReply {
            os: OsView {
                dialog: Dialog { result: Some(result), ..v.dialog },
                ui: v.ui.closed(),
                quit_posted: true,
                ..v
            },
            mem: m,
            r: Ok(TRUE),
        },
    }
}

/// `PostQuitMessage`: the running thread quits once its queue is empty.
#[verifier::opaque]
pub open spec fn quit_out(v: OsView, c: CpuView, m: MemView) -> OsReply {
    match args_at(v.wide(), c, m, seq![0]) {
        Err(f) => OsReply { os: v, mem: m, r: Err(f) },
        Ok(a) => OsReply {
            os: OsView {
                sched: v.sched.with_thread(
                    v.sched.current,
                    ThreadView { quit_code: Some(a[0] as i32), ..v.sched.me() },
                ),
                ..v
            },
            mem: m,
            r: Ok(0),
        },
    }
}

/// `CoCreateInstance`: there is none, and the pointer to it is cleared.
#[verifier::opaque]
pub open spec fn no_object_reply(is_64bit: bool, c: CpuView, m: MemView) -> Reply {
    match arg_at(is_64bit, c, m, 4) {
        Err(f) => crate::call::faulted(m, f),
        Ok(p) => answer_stores(m, opt(sptr(is_64bit, p, 0)), CLASS_NOT_REGISTERED),
    }
}

/// Serve `CoCreateInstance`.
pub fn no_object(is_64bit: bool, cpu: &CpuState, mem: &mut VirtualMemory) -> (r: Result<u64, Fault>)
    ensures
        final(mem)@ == no_object_reply(is_64bit, cpu@, old(mem)@).mem,
        r == no_object_reply(is_64bit, cpu@, old(mem)@).r,
{
    proof {
        reveal(no_object_reply);
    }
    let p: u64 = match arg(is_64bit, cpu, mem, 4) {
        Ok(p) => p,
        Err(f) => {
            return Err(f);
        },
    };
    let mut t: Vec<Store> = Vec::new();
    push_opt(&mut t, store_ptr(is_64bit, p, 0));
    assert(t@ =~= opt(sptr(is_64bit, p, 0)));
    finish(mem, &t, CLASS_NOT_REGISTERED)
}

/// The call of a dialog procedure that initializes the dialog.
fn make_init_call(dlgproc: u64, param: u64) -> (r: Callback)
    ensures
        r@ == init_call(dlgproc, param),
{
    let list: Vec<u64> = vec![HWND_DIALOG, WM_INITDIALOG, 0, param];
    assert(list@ =~= seq![HWND_DIALOG, WM_INITDIALOG, 0, param]);
    Callback { func: dlgproc, args: list }
}

/// The call of a dialog procedure for a command of its user.
fn make_command_call(dlgproc: u64, hwnd: u64, id: u32) -> (r: Callback)
    ensures
        r@ == command_call(dlgproc, hwnd, id),
{
    let list: Vec<u64> = vec![hwnd, WM_COMMAND, id as u64, 0];
    assert(list@ =~= command_args(hwnd, id));
    Callback { func: dlgproc, args: list }
}

/// The calls that start a dialog.
fn make_dialog_calls(dlgproc: u64, param: u64, live: bool) -> (r: Vec<Callback>)
    ensures
        call_views(r@) == dialog_calls(dlgproc, param, live),
{
    let mut calls: Vec<Callback> = vec![make_init_call(dlgproc, param)];
    if !live {
        calls.push(make_command_call(dlgproc, HWND_DIALOG, IDOK as u32));
    }
    assert(call_views(calls@) =~= dialog_calls(dlgproc, param, live));
    calls
}

impl WinOs {
    /// Show the dialog of a template; whether its user can drive it.
    fn show_dialog(&mut self, template: u64) -> (r: bool)
        requires
            old(self).wf(),
        ensures
            final(self).wf(),
            final(self).thunks == old(self).thunks,
            final(self)@ == dialog_shown(old(self)@, template),
            r == (has_template(old(self)@.ui, template) && final(self)@.ui.open),
    {
        let mut interactive: bool = false;
        if template < 0x1_0000 {
            let id: u32 = template as u32;
            if self.ui.has_template(id) {
                self.ui.show(Effect::OpenDialog { id });
                interactive = self.ui.open;
            }
        }
        if interactive {
            self.dialog.result = None;
        }
        interactive
    }

    /// Show the dialog of a template, and call its procedure.
    fn start_dialog(
        &mut self,
        cpu: &mut CpuState,
        mem: &mut VirtualMemory,
        template: u64,
        dlgproc: u64,
        param: u64,
        modal: bool,
    ) -> (r: Result<Outcome, Fault>)
        requires
            old(self).wf(),
        ensures
            final(self).wf(),
            final(self).thunks == old(self).thunks,
            (OsOut { os: final(self)@, cpu: final(cpu)@, mem: final(mem)@, r }) == dialog_started(
                old(self)@,
                old(cpu)@,
                old(mem)@,
                template,
                dlgproc,
                param,
                modal,
            ),
    {
        proof {
            reveal(dialog_started);
        }
        let interactive = self.show_dialog(template);
        let calls = make_dialog_calls(dlgproc, param, interactive);
        let result: u64 = if !modal {
            HWND_DIALOG
        } else if interactive {
            IDCANCEL
        } else {
            IDOK
        };
        self.invoke(cpu, mem, calls, result, 5, modal && interactive)
    }

    /// Serve `CreateDialogParam` and `DialogBoxParam`.
    pub fn create_dialog(&mut self, cpu: &mut CpuState, mem: &mut VirtualMemory, modal: bool) -> (r: Result<
        Outcome,
        Fault,
    >)
        requires
            old(self).wf(),
        ensures
            final(self).wf(),
            final(self).thunks == old(self).thunks,
            (OsOut { os: final(self)@, cpu: final(cpu)@, mem: final(mem)@, r }) == create_dialog_out(
                old(self)@,
                old(cpu)@,
                old(mem)@,
                modal,
            ),
    {
        proof {
            reveal(create_dialog_out);
        }
        let list: Vec<u64> = vec![1, 3, 4];
        assert(list@ =~= seq![1u64, 3, 4]);
        let a = match args(self.cfg.is_64bit, cpu, mem, &list) {
            Ok(a) => a,
            Err(f) => {
                return Err(f);
            },
        };
        self.dialog.dlgproc = a[1];
        self.dialog.hwnd = HWND_DIALOG;
        if a[1] == 0 {
            return Ok(Outcome::Return(HWND_DIALOG));
        }
        self.start_dialog(cpu, mem, a[0], a[1], a[2], modal)
    }

    /// Serve `EndDialog`.
    pub fn end_dialog(&mut self, cpu: &CpuState, mem: &VirtualMemory) -> (r: Result<u64, Fault>)
        requires
            old(self).wf(),
        ensures
            final(self).wf(),
            final(self).thunks == old(self).thunks,
            (OsReply { os: final(self)@, mem: mem@, r }) == end_dialog_out(
                old(self)@,
                cpu@,
                mem@,
            ),
    {
        proof {
            reveal(end_dialog_out);
        }
        let result: u64 = match arg(self.cfg.is_64bit, cpu, mem, 1) {
            Ok(p) => p,
            Err(f) => {
                return Err(f);
            },
        };
        self.dialog.result = Some(result);
        self.ui.close();
        self.quit_posted = true;
        Ok(TRUE)
    }

    /// Serve `PostQuitMessage`.
    pub fn post_quit(&mut self, cpu: &CpuState, mem: &VirtualMemory) -> (r: Result<u64, Fault>)
        requires
            old(self).wf(),
        ensures
            final(self).wf(),
            final(self).thunks == old(self).thunks,
            (OsReply { os: final(self)@, mem: mem@, r }) == quit_out(
                old(self)@,
                cpu@,
                mem@,
            ),
    {
        proof {
            reveal(quit_out);
        }
        self.sched.post_quit_message(self.cfg.is_64bit, cpu, mem)
    }

    /// Serve `DestroyWindow`.
    pub fn destroy_window(&mut self) -> (r: u64)
        requires
            old(self).wf(),
        ensures
            final(self).wf(),
            final(self).thunks == old(self).thunks,
            final(self)@ == (OsView { ui: old(self)@.ui.closed(), ..old(self)@ }),
            r == TRUE,
    {
        self.ui.close();
        TRUE
    }
}

// ---- controls ---------------------------------------------------------------

/// The control behind a window.
pub open spec fn control_of(hwnd: u64) -> Option<u32> {
    if HWND_CONTROL <= hwnd < HWND_CONTROL + 0x1_0000 {
        Some((hwnd - HWND_CONTROL) as u32)
    } else {
        None
    }
}

/// The control behind a window.
fn control_id(hwnd: u64) -> (r: Option<u32>)
    ensures
        r == control_of(hwnd),
{
    if HWND_CONTROL <= hwnd && hwnd < HWND_CONTROL + 0x1_0000 {
        Some((hwnd - HWND_CONTROL) as u32)
    } else {
        None
    }
}

impl OsView {
    /// The text of a control.
    pub open spec fn control_text(self, id: u32) -> Seq<u16> {
        if self.controls.contains_key(id) {
            self.controls[id]
        } else {
            Seq::empty()
        }
    }

    /// The text of a control of the dialog: what its user made of it.
    pub open spec fn dialog_text(self, id: u32) -> Seq<u16> {
        if self.ui.edited.contains_key(id) {
            self.ui.edited[id]
        } else {
            self.control_text(id)
        }
    }

    /// With another text of a control.
    pub open spec fn with_text(self, id: u32, text: Seq<u16>) -> OsView {
        OsView { controls: self.controls.insert(id, text), ..self }
    }

    /// Minimum, maximum and position of a progress bar.
    pub open spec fn bar(self, id: u32) -> (i64, i64, i64) {
        if self.progress.contains_key(id) {
            self.progress[id]
        } else {
            (0, 100, 0)
        }
    }

    /// With a progress bar, which is shown.
    pub open spec fn with_bar(self, id: u32, b: (i64, i64, i64)) -> OsView {
        OsView {
            progress: self.progress.insert(id, b),
            ui: self.ui.with(EffectView::Progress { id, min: b.0, max: b.1, pos: b.2 }),
            ..self
        }
    }
}

/// The end of a range, which lies behind its start.
pub open spec fn range_end(min: i64, max: i64) -> i64 {
    if max > min {
        max
    } else {
        (min + 1) as i64
    }
}

/// A control gets the text that a pointer leads to.
pub open spec fn set_text_out(v: OsView, m: MemView, id: u32, p: u64) -> OsReply {
    match units_at(m, p) {
        Err(f) => OsReply { os: v, mem: m, r: Err(f) },
        Ok(u) => OsReply { os: v.with_text(id, u), mem: m, r: Ok(TRUE) },
    }
}

/// `SetDlgItemText`: the text of a control, which is shown.
#[verifier::opaque]
pub open spec fn set_item_out(v: OsView, c: CpuView, m: MemView) -> OsReply {
    match args_at(v.wide(), c, m, seq![1, 2]) {
        Err(f) => OsReply { os: v, mem: m, r: Err(f) },
        Ok(a) => match units_at(m, a[1]) {
            Err(f) => OsReply { os: v, mem: m, r: Err(f) },
            Ok(u) => OsReply {
                os: OsView {
                    ui: v.ui.with(EffectView::SetText { id: a[0] as u32, text: utf16_lossy(u) }),
                    ..v.with_text(a[0] as u32, u)
                },
                mem: m,
                r: Ok(TRUE),
            },
        },
    }
}

/// `GetDlgItemText`.
#[verifier::opaque]
pub open spec fn get_item_reply(v: OsView, c: CpuView, m: MemView) -> Reply {
    match args_at(v.wide(), c, m, seq![1, 2, 3]) {
        Err(f) => crate::call::faulted(m, f),
        Ok(a) => wide_write(m, a[1], v.dialog_text(a[0] as u32), a[2]),
    }
}

/// `GetDlgItem`: a window that stands for the control.
#[verifier::opaque]
pub open spec fn item_reply(is_64bit: bool, c: CpuView, m: MemView) -> Reply {
    match arg_at(is_64bit, c, m, 1) {
        Err(f) => crate::call::faulted(m, f),
        Ok(id) => crate::call::answer(m, HWND_CONTROL | ((id as u32) as u64)),
    }
}

/// `SetWindowText`: the text of a control or of a window.
#[verifier::opaque]
pub open spec fn set_window_text_out(v: OsView, c: CpuView, m: MemView) -> OsReply {
    match arg_at(v.wide(), c, m, 0) {
        Err(f) => OsReply { os: v, mem: m, r: Err(f) },
        Ok(hwnd) => if control_of(hwnd) is None && !v.gdi.windows.contains_key(hwnd) {
            OsReply { os: v, mem: m, r: Ok(TRUE) }
        } else {
            match arg_at(v.wide(), c, m, 1) {
                Err(f) => OsReply { os: v, mem: m, r: Err(f) },
                Ok(p) => match control_of(hwnd) {
                    Some(id) => set_text_out(v, m, id, p),
                    None => match units_at(m, p) {
                        Err(f) => OsReply { os: v, mem: m, r: Err(f) },
                        Ok(u) => OsReply {
                            os: OsView { gdi: v.gdi.retitled(hwnd, u), ..v },
                            mem: m,
                            r: Ok(TRUE),
                        },
                    },
                },
            }
        },
    }
}

/// `GetWindowText`.
#[verifier::opaque]
pub open spec fn get_window_text_reply(v: OsView, c: CpuView, m: MemView) -> Reply {
    match args_at(v.wide(), c, m, seq![0, 1, 2]) {
        Err(f) => crate::call::faulted(m, f),
        Ok(a) => wide_write(
            m,
            a[1],
            match control_of(a[0]) {
                Some(id) => v.control_text(id),
                None => v.gdi.title_of(a[0]),
            },
            a[2],
        ),
    }
}

/// A signed value in the low half of a parameter.
pub open spec fn signed_low(a: u64) -> i64 {
    ((a as u32) as i32) as i64
}

/// What a message to a progress bar leads to.
pub open spec fn bar_out(v: OsView, m: MemView, id: u32, msg: u32, wparam: u64, lparam: u64) -> OsReply {
    let b = v.bar(id);
    if msg == PBM_SETRANGE {
        let min = (lparam as u16) as i64;
        let max = ((lparam / 0x1_0000) as u16) as i64;
        OsReply { os: v.with_bar(id, (min, range_end(min, max), b.2)), mem: m, r: Ok(0) }
    } else if msg == PBM_SETRANGE32 {
        let min = signed_low(wparam);
        let max = signed_low(lparam);
        OsReply { os: v.with_bar(id, (min, range_end(min, max), b.2)), mem: m, r: Ok(0) }
    } else if msg == PBM_SETPOS {
        OsReply { os: v.with_bar(id, (b.0, b.1, wparam as i64)), mem: m, r: Ok(b.2 as u64) }
    } else if msg == PBM_DELTAPOS {
        OsReply {
            os: v.with_bar(id, (b.0, b.1, b.2.wrapping_add(wparam as i64))),
            mem: m,
            r: Ok(b.2 as u64),
        }
    } else {
        OsReply { os: v, mem: m, r: Ok(0) }
    }
}

/// `SendMessage`: controls know their text and their progress; every other message
/// is answered with 0.
#[verifier::opaque]
pub open spec fn send_out(v: OsView, c: CpuView, m: MemView) -> OsReply {
    match args_at(v.wide(), c, m, seq![0, 1, 2, 3]) {
        Err(f) => OsReply { os: v, mem: m, r: Err(f) },
        Ok(a) => match control_of(a[0]) {
            None => OsReply { os: v, mem: m, r: Ok(0) },
            Some(id) => {
                let msg = a[1] as u32;
                if msg == WM_SETTEXT {
                    set_text_out(v, m, id, a[3])
                } else if msg == WM_GETTEXT {
                    let o = wide_write(m, a[3], v.control_text(id), a[2]);
                    OsReply { os: v, mem: o.mem, r: o.r }
                } else if msg == WM_GETTEXTLENGTH {
                    OsReply { os: v, mem: m, r: Ok(v.control_text(id).len() as u64) }
                } else {
                    bar_out(v, m, id, msg, a[2], a[3])
                }
            },
        },
    }
}

/// The text of a control.
fn text_in(m: &HashMap<u32, Vec<u16>>, id: u32) -> (r: Vec<u16>)
    ensures
        r@ == (if m@.contains_key(id) {
            m@[id]@
        } else {
            Seq::empty()
        }),
{
    match m.get(&id) {
        Some(t) => {
            let c = t.clone();
            assert(c@ =~= t@);
            c
        },
        None => {
            let none: Vec<u16> = Vec::new();
            assert(none@ =~= Seq::<u16>::empty());
            none
        },
    }
}

/// Serve `GetDlgItem`.
pub fn get_dialog_item(is_64bit: bool, cpu: &CpuState, mem: &VirtualMemory) -> (r: Result<u64, Fault>)
    ensures
        r == item_reply(is_64bit, cpu@, mem@).r,
        item_reply(is_64bit, cpu@, mem@).mem == mem@,
{
    proof {
        reveal(item_reply);
    }
    match arg(is_64bit, cpu, mem, 1) {
        Ok(id) => Ok(HWND_CONTROL | ((id as u32) as u64)),
        Err(f) => Err(f),
    }
}

impl WinOs {
    /// Give a control a text.
    fn put_text(&mut self, id: u32, text: Vec<u16>)
        requires
            old(self).wf(),
        ensures
            final(self).wf(),
            final(self).thunks == old(self).thunks,
            final(self)@ == old(self)@.with_text(id, text@),
    {
        let ghost v = self@;
        let ghost t = text@;
        let _prev = self.controls.insert(id, text);
        assert(self@.controls =~= v.controls.insert(id, t));
        assert(self@ =~= v.with_text(id, t));
    }

    /// Give a control the text that a pointer leads to.
    fn put_text_at(&mut self, mem: &VirtualMemory, id: u32, p: u64) -> (r: Result<u64, Fault>)
        requires
            old(self).wf(),
        ensures
            final(self).wf(),
            final(self).thunks == old(self).thunks,
            (OsReply { os: final(self)@, mem: mem@, r }) == set_text_out(
                old(self)@,
                mem@,
                id,
                p,
            ),
    {
        match read_wstr_units(mem, p) {
            Ok(u) => {
                self.put_text(id, u);
                Ok(TRUE)
            },
            Err(f) => Err(f),
        }
    }

    /// Serve `SetDlgItemText`.
    pub fn set_dialog_text(&mut self, cpu: &CpuState, mem: &VirtualMemory) -> (r: Result<u64, Fault>)
        requires
            old(self).wf(),
        ensures
            final(self).wf(),
            final(self).thunks == old(self).thunks,
            (OsReply { os: final(self)@, mem: mem@, r }) == set_item_out(
                old(self)@,
                cpu@,
                mem@,
            ),
    {
        proof {
            reveal(set_item_out);
        }
        let list: Vec<u64> = vec![1, 2];
        assert(list@ =~= seq![1u64, 2]);
        let a = match args(self.cfg.is_64bit, cpu, mem, &list) {
            Ok(a) => a,
            Err(f) => {
                return Err(f);
            },
        };
        let u = match read_wstr_units(mem, a[1]) {
            Ok(u) => u,
            Err(f) => {
                return Err(f);
            },
        };
        let id: u32 = a[0] as u32;
        let text = decode_utf16_lossy(&u);
        self.ui.push(Effect::SetText { id, text });
        self.put_text(id, u);
        Ok(TRUE)
    }

    /// Serve `GetDlgItemText`.
    pub fn get_dialog_text(&self, cpu: &CpuState, mem: &mut VirtualMemory) -> (r: Result<u64, Fault>)
        ensures
            final(mem)@ == get_item_reply(self@, cpu@, old(mem)@).mem,
            r == get_item_reply(self@, cpu@, old(mem)@).r,
    {
        proof {
            reveal(get_item_reply);
        }
        let list: Vec<u64> = vec![1, 2, 3];
        assert(list@ =~= seq![1u64, 2, 3]);
        let a = match args(self.cfg.is_64bit, cpu, mem, &list) {
            Ok(a) => a,
            Err(f) => {
                return Err(f);
            },
        };
        let id: u32 = a[0] as u32;
        let text = if self.ui.edited.contains_key(&id) {
            text_in(&self.ui.edited, id)
        } else {
            text_in(&self.controls, id)
        };
        assert(text@ == self@.dialog_text(id));
        write_wstr_units(mem, a[1], &text, a[2])
    }

    /// Serve `SetWindowText`.
    pub fn set_window_text(&mut self, cpu: &CpuState, mem: &VirtualMemory) -> (r: Result<u64, Fault>)
        requires
            old(self).wf(),
        ensures
            final(self).wf(),
            final(self).thunks == old(self).thunks,
            (OsReply { os: final(self)@, mem: mem@, r }) == set_window_text_out(
                old(self)@,
                cpu@,
                mem@,
            ),
    {
        proof {
            reveal(set_window_text_out);
        }
        let hwnd: u64 = match arg(self.cfg.is_64bit, cpu, mem, 0) {
            Ok(p) => p,
            Err(f) => {
                return Err(f);
            },
        };
        let control = control_id(hwnd);
        if control.is_none() && !self.gdi.windows.contains_key(&hwnd) {
            return Ok(TRUE);
        }
        let p: u64 = match arg(self.cfg.is_64bit, cpu, mem, 1) {
            Ok(p) => p,
            Err(f) => {
                return Err(f);
            },
        };
        match control {
            Some(id) => self.put_text_at(mem, id, p),
            None => match read_wstr_units(mem, p) {
                Ok(u) => {
                    self.gdi.set_title(hwnd, u);
                    Ok(TRUE)
                },
                Err(f) => Err(f),
            },
        }
    }

    /// Serve `GetWindowText`.
    pub fn get_window_text(&self, cpu: &CpuState, mem: &mut VirtualMemory) -> (r: Result<u64, Fault>)
        ensures
            final(mem)@ == get_window_text_reply(self@, cpu@, old(mem)@).mem,
            r == get_window_text_reply(self@, cpu@, old(mem)@).r,
    {
        proof {
            reveal(get_window_text_reply);
        }
        let list: Vec<u64> = vec![0, 1, 2];
        assert(list@ =~= seq![0u64, 1, 2]);
        let a = match args(self.cfg.is_64bit, cpu, mem, &list) {
            Ok(a) => a,
            Err(f) => {
                return Err(f);
            },
        };
        let text = match control_id(a[0]) {
            Some(id) => {
                let t = text_in(&self.controls, id);
                assert(t@ == self@.control_text(id));
                t
            },
            None => self.gdi.title(a[0]),
        };
        write_wstr_units(mem, a[1], &text, a[2])
    }

    /// Set a progress bar and show it.
    fn put_bar(&mut self, id: u32, b: (i64, i64, i64))
        requires
            old(self).wf(),
        ensures
            final(self).wf(),
            final(self).thunks == old(self).thunks,
            final(self)@ == old(self)@.with_bar(id, b),
    {
        let _prev = self.progress.insert(id, b);
        self.ui.push(Effect::Progress { id, min: b.0, max: b.1, pos: b.2 });
    }

    /// Serve a message to a progress bar.
    fn send_to_bar(&mut self, mem: &VirtualMemory, id: u32, msg: u32, wparam: u64, lparam: u64) -> (r:
        Result<u64, Fault>)
        requires
            old(self).wf(),
        ensures
            final(self).wf(),
            final(self).thunks == old(self).thunks,
            (OsReply { os: final(self)@, mem: mem@, r }) == bar_out(
                old(self)@,
                mem@,
                id,
                msg,
                wparam,
                lparam,
            ),
    {
        let b: (i64, i64, i64) = match self.progress.get(&id) {
            Some(b) => *b,
            None => (0, 100, 0),
        };
        assert(b == self@.bar(id));
        if msg == PBM_SETRANGE {
            let min: i64 = (lparam as u16) as i64;
            let max: i64 = ((lparam / 0x1_0000) as u16) as i64;
            let end: i64 = if max > min {
                max
            } else {
                min + 1
            };
            self.put_bar(id, (min, end, b.2));
            Ok(0)
        } else if msg == PBM_SETRANGE32 {
            let min: i64 = ((wparam as u32) as i32) as i64;
            let max: i64 = ((lparam as u32) as i32) as i64;
            let end: i64 = if max > min {
                max
            } else {
                min + 1
            };
            self.put_bar(id, (min, end, b.2));
            Ok(0)
        } else if msg == PBM_SETPOS {
            self.put_bar(id, (b.0, b.1, wparam as i64));
            Ok(b.2 as u64)
        } else if msg == PBM_DELTAPOS {
            self.put_bar(id, (b.0, b.1, b.2.wrapping_add(wparam as i64)));
            Ok(b.2 as u64)
        } else {
            Ok(0)
        }
    }

    /// Serve `SendMessage`.
    pub fn send_message(&mut self, cpu: &CpuState, mem: &mut VirtualMemory) -> (r: Result<u64, Fault>)
        requires
            old(self).wf(),
        ensures
            final(self).wf(),
            final(self).thunks == old(self).thunks,
            (OsReply { os: final(self)@, mem: final(mem)@, r }) == send_out(
                old(self)@,
                cpu@,
                old(mem)@,
            ),
    {
        proof {
            reveal(send_out);
        }
        let list: Vec<u64> = vec![0, 1, 2, 3];
        assert(list@ =~= seq![0u64, 1, 2, 3]);
        let a = match args(self.cfg.is_64bit, cpu, mem, &list) {
            Ok(a) => a,
            Err(f) => {
                return Err(f);
            },
        };
        let id: u32 = match control_id(a[0]) {
            Some(id) => id,
            None => {
                return Ok(0);
            },
        };
        let msg: u32 = a[1] as u32;
        if msg == WM_SETTEXT {
            self.put_text_at(mem, id, a[3])
        } else if msg == WM_GETTEXT {
            let t = text_in(&self.controls, id);
            assert(t@ == self@.control_text(id));
            write_wstr_units(mem, a[3], &t, a[2])
        } else if msg == WM_GETTEXTLENGTH {
            let t = text_in(&self.controls, id);
            assert(t@ == self@.control_text(id));
            Ok(t.len() as u64)
        } else {
            self.send_to_bar(mem, id, msg, a[2], a[3])
        }
    }

}

// ---- the message loop -------------------------------------------------------

/// The message that keeps a loop going.
pub open spec fn null_msg() -> PostedMsg {
    PostedMsg { hwnd: HWND_DIALOG, message: 0, wparam: 0, lparam: 0 }
}

/// A message goes to a record, and the call answers with `x`.
pub open spec fn delivered(v: OsView, c: CpuView, m: MemView, p: u64, msg: PostedMsg, x: u64) -> OsOut {
    replied(v, c, answer_stores(m, msg_table(v.wide(), p, msg), x))
}

/// A message goes to a record, and a command to the dialog procedure; behind it the
/// call answers with `x`.
pub open spec fn commanded(
    v: OsView,
    c: CpuView,
    m: MemView,
    p: u64,
    id: u32,
    x: u64,
    argc: u32,
) -> OsOut {
    let s = m.store_all(msg_table(v.wide(), p, null_msg()));
    match s.fault {
        Some(f) => OsOut { os: v, cpu: c, mem: s.mem, r: Err(f) },
        None => v.calling(
            c,
            s.mem,
            seq![command_call(v.dialog.dlgproc, v.dialog.hwnd, id)],
            x,
            argc,
            false,
        ),
    }
}

/// A loop that nobody feeds is kept going for a while.
pub open spec fn pumped(v: OsView, c: CpuView, m: MemView, p: u64) -> OsOut {
    if v.msg_pumps > 0 {
        delivered(OsView { msg_pumps: (v.msg_pumps - 1) as u32, ..v }, c, m, p, null_msg(), 1)
    } else {
        answered(v, c, m, 0)
    }
}

/// Whether a window of the application itself is shown.
pub open spec fn custom_window(v: OsView) -> bool {
    v.gdi.active && v.ui.open
}

/// Whether `GetMessage` needs the next event of the window.
pub open spec fn get_wants_event(v: OsView) -> bool {
    next_msg(v.sched.me()) is None && !v.quit_posted && v.ui.open && !(v.gdi.active
        && v.gdi.paint_pending)
}

/// `GetMessage`: the queue of the thread comes first; then what the window owes or
/// what its user does; 0 tells the loop to end.
#[verifier::opaque]
pub open spec fn get_message_out(v: OsView, c: CpuView, m: MemView, host: HostReply) -> OsOut {
    match arg_at(v.wide(), c, m, 0) {
        Err(f) => failed(v, c, m, f),
        Ok(p) => match next_msg(v.sched.me()) {
            Some(msg) => delivered(
                OsView {
                    sched: v.sched.with_thread(v.sched.current, msg_taken(v.sched.me())),
                    ..v
                },
                c,
                m,
                p,
                msg,
                if msg.message == WM_QUIT {
                    0
                } else {
                    1
                },
            ),
            None => if v.quit_posted {
                answered(OsView { quit_posted: false, ..v }, c, m, 0)
            } else if custom_window(v) {
                if v.gdi.paint_pending {
                    delivered(
                        OsView { gdi: GdiView { paint_pending: false, ..v.gdi }, ..v },
                        c,
                        m,
                        p,
                        PostedMsg {
                            hwnd: v.gdi.active_hwnd,
                            message: WM_PAINT as u32,
                            wparam: 0,
                            lparam: 0,
                        },
                        1,
                    )
                } else {
                    match host.spec_event() {
                        Some(GuiEvent::MouseDown(x, y)) => delivered(
                            v,
                            c,
                            m,
                            p,
                            PostedMsg {
                                hwnd: v.gdi.active_hwnd,
                                message: WM_LBUTTONDOWN as u32,
                                wparam: 0,
                                lparam: packed(x, y),
                            },
                            1,
                        ),
                        _ => answered(v, c, m, 0),
                    }
                }
            } else if v.ui.open {
                match host.spec_event() {
                    Some(GuiEvent::Command(id)) => commanded(v, c, m, p, id, 1, 4),
                    None => delivered(v, c, m, p, null_msg(), 1),
                    _ => answered(v, c, m, 0),
                }
            } else {
                pumped(v, c, m, p)
            },
        },
    }
}

/// `PeekMessage`: like `GetMessage`, but without waiting, and the message stays
/// where it is not asked to be removed.
#[verifier::opaque]
pub open spec fn peek_message_out(v: OsView, c: CpuView, m: MemView, host: HostReply) -> OsOut {
    match args_at(v.wide(), c, m, seq![0, 4]) {
        Err(f) => failed(v, c, m, f),
        Ok(a) => match next_msg(v.sched.me()) {
            Some(msg) => delivered(
                if a[1] % 2 == 1 {
                    OsView {
                        sched: v.sched.with_thread(v.sched.current, msg_taken(v.sched.me())),
                        ..v
                    }
                } else {
                    v
                },
                c,
                m,
                a[0],
                msg,
                TRUE,
            ),
            None => if v.ui.open {
                match host.spec_event() {
                    Some(GuiEvent::Command(id)) => commanded(v, c, m, a[0], id, TRUE, 5),
                    Some(GuiEvent::Close) => answered(
                        OsView { quit_posted: true, ..v },
                        c,
                        m,
                        FALSE,
                    ),
                    _ => answered(v, c, m, FALSE),
                }
            } else {
                pumped(v, c, m, a[0])
            },
        },
    }
}

/// What `GetMessage` asks of the host.
pub open spec fn get_message_asks(v: OsView) -> RequestView {
    if get_wants_event(v) {
        RequestView::Event { wait: true }
    } else {
        RequestView::Nothing
    }
}

/// What `PeekMessage` asks of the host.
pub open spec fn peek_message_asks(v: OsView) -> RequestView {
    if next_msg(v.sched.me()) is None && v.ui.open {
        RequestView::Event { wait: false }
    } else {
        RequestView::Nothing
    }
}

impl WinOs {
    /// Whether the running thread has a message.
    fn has_message(&self) -> (r: bool)
        requires
            self.wf(),
        ensures
            r == next_msg(self@.sched.me()) is Some,
    {
        let t = &self.sched.threads[self.sched.current];
        assert(self@.sched.me() == t@);
        t.msgs.len() > 0 || t.quit_code.is_some()
    }

    /// What `GetMessage` asks of the host.
    pub fn get_message_request(&self) -> (r: HostRequest)
        requires
            self.wf(),
        ensures
            r@ == get_message_asks(self@),
    {
        if !self.has_message() && !self.quit_posted && self.ui.open && !(self.gdi.active
            && self.gdi.paint_pending) {
            HostRequest::Event { wait: true }
        } else {
            HostRequest::Nothing
        }
    }

    /// What `PeekMessage` asks of the host.
    pub fn peek_message_request(&self) -> (r: HostRequest)
        requires
            self.wf(),
        ensures
            r@ == peek_message_asks(self@),
    {
        if !self.has_message() && self.ui.open {
            HostRequest::Event { wait: false }
        } else {
            HostRequest::Nothing
        }
    }

    /// Write a message to a record and answer.
    fn deliver(&self, mem: &mut VirtualMemory, p: u64, msg: PostedMsg, x: u64) -> (r: Result<Outcome, Fault>)
        ensures
            forall|c: CpuView|
                (OsOut { os: self@, cpu: c, mem: final(mem)@, r }) == #[trigger] delivered(
                    self@,
                    c,
                    old(mem)@,
                    p,
                    msg,
                    x,
                ),
    {
        match write_msg_full(self.cfg.is_64bit, mem, p, msg) {
            Ok(_) => Ok(Outcome::Return(x)),
            Err(f) => Err(f),
        }
    }

    /// Hand a command to the dialog procedure.
    fn command(
        &mut self,
        cpu: &mut CpuState,
        mem: &mut VirtualMemory,
        p: u64,
        id: u32,
        x: u64,
        argc: u32,
    ) -> (r: Result<Outcome, Fault>)
        requires
            old(self).wf(),
        ensures
            final(self).wf(),
            final(self).thunks == old(self).thunks,
            (OsOut { os: final(self)@, cpu: final(cpu)@, mem: final(mem)@, r }) == commanded(
                old(self)@,
                old(cpu)@,
                old(mem)@,
                p,
                id,
                x,
                argc,
            ),
    {
        let msg = PostedMsg { hwnd: HWND_DIALOG, message: 0, wparam: 0, lparam: 0 };
        match write_msg_full(self.cfg.is_64bit, mem, p, msg) {
            Ok(_) => {},
            Err(f) => {
                return Err(f);
            },
        }
        let calls: Vec<Callback> = vec![
            make_command_call(self.dialog.dlgproc, self.dialog.hwnd, id),
        ];
        assert(call_views(calls@) =~= seq![
            command_call(self.dialog.dlgproc, self.dialog.hwnd, id),
        ]);
        self.invoke(cpu, mem, calls, x, argc, false)
    }

    /// Keep a loop that nobody feeds going for a while.
    fn pump(&mut self, cpu: &mut CpuState, mem: &mut VirtualMemory, p: u64) -> (r: Result<Outcome, Fault>)
        requires
            old(self).wf(),
        ensures
            final(self).wf(),
            final(self).thunks == old(self).thunks,
            (OsOut { os: final(self)@, cpu: final(cpu)@, mem: final(mem)@, r }) == pumped(
                old(self)@,
                old(cpu)@,
                old(mem)@,
                p,
            ),
    {
        if self.msg_pumps > 0 {
            self.msg_pumps = self.msg_pumps - 1;
            let msg = PostedMsg { hwnd: HWND_DIALOG, message: 0, wparam: 0, lparam: 0 };
            assert(delivered(self@, cpu@, mem@, p, msg, 1).os == self@);
            self.deliver(mem, p, msg, 1)
        } else {
            Ok(Outcome::Return(0))
        }
    }

    /// Serve `GetMessage`.
    pub fn get_message(&mut self, cpu: &mut CpuState, mem: &mut VirtualMemory, host: &HostReply) -> (r: Result<
        Outcome,
        Fault,
    >)
        requires
            old(self).wf(),
        ensures
            final(self).wf(),
            final(self).thunks == old(self).thunks,
            (OsOut { os: final(self)@, cpu: final(cpu)@, mem: final(mem)@, r }) == get_message_out(
                old(self)@,
                old(cpu)@,
                old(mem)@,
                *host,
            ),
    {
        proof {
            reveal(get_message_out);
        }
        let p: u64 = match arg(self.cfg.is_64bit, cpu, mem, 0) {
            Ok(p) => p,
            Err(f) => {
                return Err(f);
            },
        };
        if self.has_message() {
            let msg = match self.sched.msg_next() {
                Some(msg) => msg,
                None => PostedMsg { hwnd: HWND_DIALOG, message: 0, wparam: 0, lparam: 0 },
            };
            let x: u64 = if msg.message == WM_QUIT {
                0
            } else {
                1
            };
            assert(delivered(self@, cpu@, mem@, p, msg, x).os == self@);
            return self.deliver(mem, p, msg, x);
        }
        if self.quit_posted {
            self.quit_posted = false;
            return Ok(Outcome::Return(0));
        }
        if self.gdi.active && self.ui.open {
            if self.gdi.paint_pending {
                self.gdi.paint_pending = false;
                let msg = PostedMsg {
                    hwnd: self.gdi.active_hwnd,
                    message: WM_PAINT as u32,
                    wparam: 0,
                    lparam: 0,
                };
                assert(delivered(self@, cpu@, mem@, p, msg, 1).os == self@);
                return self.deliver(mem, p, msg, 1);
            }
            return match host.event() {
                Some(GuiEvent::MouseDown(x, y)) => {
                    let msg = PostedMsg {
                        hwnd: self.gdi.active_hwnd,
                        message: WM_LBUTTONDOWN as u32,
                        wparam: 0,
                        lparam: pack(x, y),
                    };
                    assert(delivered(self@, cpu@, mem@, p, msg, 1).os == self@);
                    self.deliver(mem, p, msg, 1)
                },
                _ => Ok(Outcome::Return(0)),
            };
        }
        if self.ui.open {
            return match host.event() {
                Some(GuiEvent::Command(id)) => self.command(cpu, mem, p, id, 1, 4),
                None => {
                    let msg = PostedMsg { hwnd: HWND_DIALOG, message: 0, wparam: 0, lparam: 0 };
                    assert(delivered(self@, cpu@, mem@, p, msg, 1).os == self@);
                    self.deliver(mem, p, msg, 1)
                },
                _ => Ok(Outcome::Return(0)),
            };
        }
        self.pump(cpu, mem, p)
    }

    /// Serve `PeekMessage`.
    pub fn peek_message(&mut self, cpu: &mut CpuState, mem: &mut VirtualMemory, host: &HostReply) -> (r: Result<
        Outcome,
        Fault,
    >)
        requires
            old(self).wf(),
        ensures
            final(self).wf(),
            final(self).thunks == old(self).thunks,
            (OsOut { os: final(self)@, cpu: final(cpu)@, mem: final(mem)@, r }) == peek_message_out(
                old(self)@,
                old(cpu)@,
                old(mem)@,
                *host,
            ),
    {
        proof {
            reveal(peek_message_out);
        }
        let list: Vec<u64> = vec![0, 4];
        assert(list@ =~= seq![0u64, 4]);
        let a = match args(self.cfg.is_64bit, cpu, mem, &list) {
            Ok(a) => a,
            Err(f) => {
                return Err(f);
            },
        };
        if self.has_message() {
            let msg = match self.sched.msg_peek(a[1] % 2 == 1) {
                Some(msg) => msg,
                None => PostedMsg { hwnd: HWND_DIALOG, message: 0, wparam: 0, lparam: 0 },
            };
            assert(delivered(self@, cpu@, mem@, a@[0], msg, TRUE).os == self@);
            return self.deliver(mem, a[0], msg, TRUE);
        }
        if self.ui.open {
            return match host.event() {
                Some(GuiEvent::Command(id)) => self.command(cpu, mem, a[0], id, TRUE, 5),
                Some(GuiEvent::Close) => {
                    self.quit_posted = true;
                    Ok(Outcome::Return(FALSE))
                },
                _ => Ok(Outcome::Return(FALSE)),
            };
        }
        self.pump(cpu, mem, a[0])
    }
}

/// The text that a message gave a control is the text that the next one reads.
pub proof fn lemma_text_read_back(v: OsView, id: u32, text: Seq<u16>, other: u32)
    requires
        other != id,
    ensures
        v.with_text(id, text).control_text(id) == text,
        v.with_text(id, text).control_text(other) == v.control_text(other),
{
}

/// A loop that nobody feeds ends: after as many rounds as are left it is told so.
pub proof fn lemma_loop_ends(v: OsView, c: CpuView, m: MemView, p: u64)
    ensures
        v.msg_pumps == 0 ==> pumped(v, c, m, p).r == Ok::<Outcome, Fault>(Outcome::Return(0)),
        v.msg_pumps > 0 ==> pumped(v, c, m, p).os.msg_pumps == v.msg_pumps - 1,
{
}

} // verus!
