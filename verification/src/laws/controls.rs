//! What windows, dialogs and controls show and keep.

use vstd::prelude::*;

use crate::api::Api;
use crate::call::{arg_at, args_at};
use crate::cpu::CpuView;
use crate::dialogs::control_of;
use crate::dispatch::dispatch_out;
use crate::gdi::{created, Rect};
use crate::gstr::{fitting, units_at, wide_table, wide_text, wide_write};
use crate::host::HostReply;
use crate::laws::{
    given, gives, lemma_read_1, lemma_read_2, lemma_read_3, lemma_read_4, lemma_read_list,
};
use crate::laws::served::{
    bound_get_capture, bound_get_focus, bound_get_prop, bound_release_capture, bound_remove_prop,
    bound_set_capture, bound_set_focus, bound_set_prop, serves_create_window_ex_api,
    serves_end_dialog_api, serves_get_dlg_item_api, serves_get_dlg_item_text,
    serves_get_window_text_api, serves_post_quit_message_api, serves_register_class_api,
    serves_send_message_api, serves_set_dlg_item_text, serves_set_window_text_api,
};
use crate::mem::{apart, lemma_pow256, lemma_store_all_get, lemma_sub_access, Fault, MemView};
use crate::named::Named;
use crate::os::{OsOut, OsView};
use crate::ui::EffectView;
use crate::win::prop_text;
use crate::windows::{create_window_out, window_args, window_spec};

verus! {

// ---- text -------------------------------------------------------------------

/// Whether memory holds a text with its terminator.
pub open spec fn holds_text(m: MemView, p: u64, u: Seq<u16>) -> bool {
    &&& forall|i: int|
        0 <= i < u.len() ==> m.r16((p + 2 * i) as u64) == Ok::<u16, Fault>(#[trigger] u[i])
    &&& m.r16((p + 2 * u.len()) as u64) == Ok::<u16, Fault>(0)
}

/// The part of a text that fits a buffer with its terminator.
pub open spec fn fitted(u: Seq<u16>, max: u64) -> Seq<u16> {
    if u.len() < max {
        u
    } else {
        u.take(max - 1)
    }
}

/// A buffer gets as much of a text as fits with its terminator, and the answer is how much
/// that is.
pub proof fn lemma_tells_text(m: MemView, p: u64, u: Seq<u16>, max: u64)
    requires
        m.wf(),
        p != 0,
        0 < max,
        p + 2 * max <= u64::MAX,
        m.can_read(p as int, 2 * max as int),
        wide_write(m, p, u, max).r is Ok,
    ensures
        wide_write(m, p, u, max).r == Ok::<u64, Fault>(fitted(u, max).len() as u64),
        holds_text(wide_write(m, p, u, max).mem, p, fitted(u, max)),
{
    let w = fitted(u, max);
    let t = wide_table(p, w);
    let n = w.len();
    let k = m.store_all(t).mem;
    assert(u.take(fitting(u.len(), max) as int) =~= w);
    lemma_pow256();
    assert forall|i: int| 0 <= i <= n implies k.r16(#[trigger] ((p + 2 * i) as u64)) == Ok::<
        u16,
        Fault,
    >(
        if i < n {
            w[i]
        } else {
            0
        },
    ) by {
        assert forall|j: int| i < j < t.len() implies apart(t[i], #[trigger] t[j]) by {}
        lemma_sub_access(m, p as int, 2 * max as int, p + 2 * i, 2);
        lemma_store_all_get(m, t, i);
    }
    assert forall|i: int| 0 <= i < n implies k.r16((p + 2 * i) as u64) == Ok::<u16, Fault>(
        #[trigger] w[i],
    ) by {
        let x = (p + 2 * i) as u64;
        assert(k.r16(x) == Ok::<u16, Fault>(w[i]));
    }
    let x = (p + 2 * n) as u64;
    assert(k.r16(x) == Ok::<u16, Fault>(0));
}

/// Whether a handle stands for a window or a control that has a text.
pub open spec fn has_text(v: OsView, h: u64) -> bool {
    0xC0_0000 <= h < 0xC1_0000 || v.gdi.windows.contains_key(h)
}

/// `SetWindowText` gives the window its text, which `GetWindowText` then tells, as far as the
/// buffer has room; what it tells of another window stays what it was.
pub proof fn lemma_window_text(
    v: OsView,
    c: CpuView,
    m: MemView,
    host: HostReply,
    a: Seq<u64>,
    u: Seq<u16>,
    d: CpuView,
    k: MemView,
    b: Seq<u64>,
)
    requires
        given(v, c, m, a),
        a.len() == 2,
        has_text(v, a[0]),
        units_at(m, a[1]) == Ok::<Seq<u16>, Fault>(u),
        given(v, d, k, b),
        b.len() == 3,
        b[1] != 0,
        0 < b[2],
        b[1] + 2 * b[2] <= u64::MAX,
        k.wf(),
        k.can_read(b[1] as int, 2 * b[2] as int),
    ensures
        ({
            let o = dispatch_out(v, Api::SetWindowTextApi, c, m, host);
            let was = dispatch_out(v, Api::GetWindowTextApi, d, k, host);
            let is = dispatch_out(o.os, Api::GetWindowTextApi, d, k, host);
            &&& gives(o, 1)
            &&& b[0] == a[0] && is.r is Ok ==> gives(is, fitted(u, b[2]).len() as u64)
                && holds_text(is.mem, b[1], fitted(u, b[2]))
            &&& b[0] != a[0] ==> is.mem == was.mem && is.r == was.r
        }),
{
    reveal(crate::dialogs::get_window_text_reply);
    reveal(crate::dialogs::set_window_text_out);
    serves_set_window_text_api(v, c, m, host);
    assert(arg_at(v.wide(), c, m, 0) == Ok::<u64, Fault>(a[0]));
    assert(arg_at(v.wide(), c, m, 1) == Ok::<u64, Fault>(a[1]));
    let o = dispatch_out(v, Api::SetWindowTextApi, c, m, host);
    assert(o.os.wide() == v.wide());
    serves_get_window_text_api(v, d, k, host);
    serves_get_window_text_api(o.os, d, k, host);
    lemma_read_3(v, d, k, b, 0, 1, 2);
    if b[0] == a[0] && dispatch_out(o.os, Api::GetWindowTextApi, d, k, host).r is Ok {
        lemma_tells_text(k, b[1], u, b[2]);
    }
}

/// `SetDlgItemText` gives the control its text, which `GetDlgItemText` then tells where the
/// user has not typed another, and so does `GetWindowText` of the control's own window; what
/// another control tells stays what it was.
pub proof fn lemma_dialog_text(
    v: OsView,
    c: CpuView,
    m: MemView,
    host: HostReply,
    a: Seq<u64>,
    u: Seq<u16>,
    d: CpuView,
    k: MemView,
    b: Seq<u64>,
)
    requires
        given(v, c, m, a),
        a.len() == 3,
        units_at(m, a[2]) == Ok::<Seq<u16>, Fault>(u),
        given(v, d, k, b),
        b.len() == 4,
        b[2] != 0,
        0 < b[3],
        b[2] + 2 * b[3] <= u64::MAX,
        k.wf(),
        k.can_read(b[2] as int, 2 * b[3] as int),
        !v.ui.edited.contains_key(b[1] as u32),
    ensures
        ({
            let o = dispatch_out(v, Api::SetDlgItemTextW, c, m, host);
            let was = dispatch_out(v, Api::GetDlgItemTextW, d, k, host);
            let is = dispatch_out(o.os, Api::GetDlgItemTextW, d, k, host);
            &&& gives(o, 1)
            &&& b[1] as u32 == a[1] as u32 && is.r is Ok ==> gives(
                is,
                fitted(u, b[3]).len() as u64,
            ) && holds_text(is.mem, b[2], fitted(u, b[3]))
            &&& b[1] as u32 != a[1] as u32 ==> is.mem == was.mem && is.r == was.r
            &&& a[1] < 0x1_0000 ==> control_text_of(o.os, (0xC0_0000 + a[1]) as u64) == u
        }),
{
    reveal(crate::dialogs::get_item_reply);
    reveal(crate::dialogs::set_item_out);
    serves_set_dlg_item_text(v, c, m, host);
    lemma_read_2(v, c, m, a, 1, 2);
    let o = dispatch_out(v, Api::SetDlgItemTextW, c, m, host);
    assert(o.os.wide() == v.wide());
    serves_get_dlg_item_text(v, d, k, host);
    serves_get_dlg_item_text(o.os, d, k, host);
    lemma_read_3(v, d, k, b, 1, 2, 3);
    if b[1] as u32 == a[1] as u32 && dispatch_out(o.os, Api::GetDlgItemTextW, d, k, host).r is Ok {
        lemma_tells_text(k, b[2], u, b[3]);
    }
}

/// The text of the control behind a window handle.
pub open spec fn control_text_of(v: OsView, h: u64) -> Seq<u16> {
    match control_of(h) {
        Some(id) => v.control_text(id),
        None => v.gdi.title_of(h),
    }
}

/// A control answers the messages on its text: one sets it, one tells it as far as there is
/// room, one tells its length.
pub proof fn lemma_text_messages(
    v: OsView,
    c: CpuView,
    m: MemView,
    host: HostReply,
    a: Seq<u64>,
    u: Seq<u16>,
)
    requires
        given(v, c, m, a),
        a.len() == 4,
        0xC0_0000 <= a[0] < 0xC1_0000,
    ensures
        ({
            let o = dispatch_out(v, Api::SendMessageApi, c, m, host);
            let x = a[1] as u32;
            &&& x == 0xC && units_at(m, a[3]) == Ok::<Seq<u16>, Fault>(u) ==> gives(o, 1)
                && control_text_of(o.os, a[0]) == u
            &&& x == 0xE ==> gives(o, control_text_of(v, a[0]).len() as u64) && o.os == v
            &&& x == 0xD && o.r is Ok && m.wf() && a[3] != 0 && 0 < a[2] && a[3] + 2 * a[2]
                <= u64::MAX && m.can_read(a[3] as int, 2 * a[2] as int) ==> holds_text(
                o.mem,
                a[3],
                fitted(control_text_of(v, a[0]), a[2]),
            ) && gives(o, fitted(control_text_of(v, a[0]), a[2]).len() as u64)
        }),
{
    reveal(crate::dialogs::send_out);
    serves_send_message_api(v, c, m, host);
    lemma_read_4(v, c, m, a, 0, 1, 2, 3);
    let o = dispatch_out(v, Api::SendMessageApi, c, m, host);
    if a[1] as u32 == 0xD && o.r is Ok && m.wf() && a[3] != 0 && 0 < a[2] && a[3] + 2 * a[2]
        <= u64::MAX && m.can_read(a[3] as int, 2 * a[2] as int) {
        lemma_tells_text(m, a[3], control_text_of(v, a[0]), a[2]);
    }
}

// ---- progress ---------------------------------------------------------------

/// The range and the position that the window of a progress bar shows after a call: those of
/// the last thing that the call had shown.
pub open spec fn shows(o: OsOut, id: u32, min: int, max: int, pos: int) -> bool {
    &&& o.os.bar(id).0 == min
    &&& o.os.bar(id).1 == max
    &&& o.os.bar(id).2 == pos
    &&& o.os.ui.effects.len() > 0
    &&& o.os.ui.effects.last() == (EffectView::Progress {
        id,
        min: min as i64,
        max: max as i64,
        pos: pos as i64,
    })
}

/// A progress bar shows the range and the position it was last given: the range as two halves
/// of one parameter or as two parameters, the position as such or as a step from where it
/// is. The answer to a position is the one before; no other bar moves.
pub proof fn lemma_progress(
    v: OsView,
    c: CpuView,
    m: MemView,
    host: HostReply,
    a: Seq<u64>,
    other: u32,
)
    requires
        given(v, c, m, a),
        a.len() == 4,
        0xC0_0000 <= a[0] < 0xC1_0000,
    ensures
        ({
            let o = dispatch_out(v, Api::SendMessageApi, c, m, host);
            let id = (a[0] - 0xC0_0000) as u32;
            let min = v.bar(id).0;
            let max = v.bar(id).1;
            let pos = v.bar(id).2;
            let x = a[1] as u32;
            &&& x == 0x401 && a[3] % 0x1_0000 < (a[3] / 0x1_0000) % 0x1_0000 ==> shows(
                o,
                id,
                (a[3] % 0x1_0000) as int,
                ((a[3] / 0x1_0000) % 0x1_0000) as int,
                pos as int,
            )
            &&& x == 0x406 && a[2] < a[3] < 0x8000_0000 ==> shows(
                o,
                id,
                a[2] as int,
                a[3] as int,
                pos as int,
            )
            &&& x == 0x402 && a[2] < 0x8000_0000 ==> shows(
                o,
                id,
                min as int,
                max as int,
                a[2] as int,
            ) && gives(o, pos as u64)
            &&& x == 0x403 && a[2] < 0x8000_0000 && 0 <= pos < 0x8000_0000 ==> shows(
                o,
                id,
                min as int,
                max as int,
                pos + a[2],
            ) && gives(o, pos as u64)
            &&& other != id ==> o.os.bar(other) == v.bar(other)
        }),
{
    reveal(crate::dialogs::send_out);
    serves_send_message_api(v, c, m, host);
    lemma_read_4(v, c, m, a, 0, 1, 2, 3);
    let w = a[2];
    let l = a[3];
    assert(l as u16 == l % 0x1_0000) by (bit_vector);
    let h = l / 0x1_0000;
    assert(h as u16 == h % 0x1_0000) by (bit_vector);
    if w < 0x8000_0000 {
        assert(((w as u32) as i32) == w && (w as i64) == w) by (bit_vector)
            requires
                w < 0x8000_0000,
        ;
    }
    if l < 0x8000_0000 {
        assert(((l as u32) as i32) == l) by (bit_vector)
            requires
                l < 0x8000_0000,
        ;
    }
}

// ---- ends -------------------------------------------------------------------

/// `PostQuitMessage` leaves the messages that wait and what the other threads have to do, and
/// keeps the code for the thread that called; `EndDialog` closes the window and keeps its
/// result.
pub proof fn lemma_quits(v: OsView, c: CpuView, m: MemView, host: HostReply, a: Seq<u64>, j: int)
    requires
        v.sched.wf(),
        given(v, c, m, a),
        a.len() == 2,
    ensures
        ({
            let o = dispatch_out(v, Api::PostQuitMessageApi, c, m, host);
            let e = dispatch_out(v, Api::EndDialogApi, c, m, host);
            &&& gives(o, 0)
            &&& o.os.sched.me().quit_code == Some(a[0] as i32)
            &&& o.os.sched.me().msgs == v.sched.me().msgs
            &&& 0 <= j < v.sched.threads.len() && j != v.sched.current ==> o.os.sched.threads[j]
                == v.sched.threads[j]
            &&& gives(e, 1)
            &&& e.os.dialog.result == Some(a[1])
            &&& e.os.ui == v.ui.closed()
        }),
{
    reveal(crate::dialogs::end_dialog_out);
    reveal(crate::dialogs::quit_out);
    serves_post_quit_message_api(v, c, m, host);
    lemma_read_1(v, c, m, a, 0);
    serves_end_dialog_api(v, c, m, host);
    assert(arg_at(v.wide(), c, m, 1) == Ok::<u64, Fault>(a[1]));
}

// ---- focus, capture and properties --------------------------------------------

/// `SetFocus` answers with the window that had the focus, and `GetFocus` with the one that
/// was given it last; the capture goes by itself, the same way, until it is released.
pub proof fn lemma_focus(
    v: OsView,
    c: CpuView,
    m: MemView,
    host: HostReply,
    h: u64,
    d: CpuView,
    k: MemView,
)
    requires
        given(v, c, m, seq![h]),
    ensures
        ({
            let f = dispatch_out(v, Api::Bound(Named::SetFocus), c, m, host);
            let g = dispatch_out(v, Api::Bound(Named::SetCapture), c, m, host);
            let r = dispatch_out(v, Api::Bound(Named::ReleaseCapture), c, m, host);
            let focus = v.gdi.focus_hwnd;
            let capture = v.gdi.capture_hwnd;
            &&& gives(f, focus)
            &&& gives(dispatch_out(v, Api::Bound(Named::GetFocus), d, k, host), focus)
            &&& gives(dispatch_out(f.os, Api::Bound(Named::GetFocus), d, k, host), h)
            &&& gives(dispatch_out(f.os, Api::Bound(Named::GetCapture), d, k, host), capture)
            &&& gives(g, capture)
            &&& gives(dispatch_out(v, Api::Bound(Named::GetCapture), d, k, host), capture)
            &&& gives(dispatch_out(g.os, Api::Bound(Named::GetCapture), d, k, host), h)
            &&& gives(dispatch_out(g.os, Api::Bound(Named::GetFocus), d, k, host), focus)
            &&& gives(dispatch_out(r.os, Api::Bound(Named::GetCapture), d, k, host), 0)
            &&& gives(dispatch_out(r.os, Api::Bound(Named::GetFocus), d, k, host), focus)
        }),
{
    reveal(crate::bound::capture_out);
    reveal(crate::bound::focus_out);
    lemma_read_1(v, c, m, seq![h], 0);
    bound_set_focus(v, c, m, host);
    bound_set_capture(v, c, m, host);
    bound_release_capture(v, c, m, host);
    let f = dispatch_out(v, Api::Bound(Named::SetFocus), c, m, host);
    let g = dispatch_out(v, Api::Bound(Named::SetCapture), c, m, host);
    let r = dispatch_out(v, Api::Bound(Named::ReleaseCapture), c, m, host);
    bound_get_focus(v, d, k, host);
    bound_get_focus(f.os, d, k, host);
    bound_get_focus(g.os, d, k, host);
    bound_get_focus(r.os, d, k, host);
    bound_get_capture(v, d, k, host);
    bound_get_capture(f.os, d, k, host);
    bound_get_capture(g.os, d, k, host);
    bound_get_capture(r.os, d, k, host);
}

/// A property that `SetProp` gave a window is what `GetProp` tells and `RemoveProp` takes
/// away; properties of other names and of other windows stay.
pub proof fn lemma_properties(
    v: OsView,
    c: CpuView,
    m: MemView,
    host: HostReply,
    wide: bool,
    a: Seq<u64>,
    name: Seq<char>,
    d: CpuView,
    k: MemView,
    b: Seq<u64>,
    asked: Seq<char>,
)
    requires
        given(v, c, m, a),
        a.len() == 3,
        v.gdi.windows.contains_key(a[0]),
        prop_text(m, a[1], wide) == Ok::<Seq<char>, Fault>(name),
        given(v, d, k, b),
        b.len() == 2,
        prop_text(k, b[1], wide) == Ok::<Seq<char>, Fault>(asked),
    ensures
        ({
            let o = dispatch_out(v, Api::Bound(Named::SetProp { wide }), c, m, host);
            let was = dispatch_out(v, Api::Bound(Named::GetProp { wide }), d, k, host);
            let is = dispatch_out(o.os, Api::Bound(Named::GetProp { wide }), d, k, host);
            let q = dispatch_out(o.os, Api::Bound(Named::RemoveProp { wide }), d, k, host);
            let gone = dispatch_out(q.os, Api::Bound(Named::GetProp { wide }), d, k, host);
            &&& gives(o, 1)
            &&& b[0] == a[0] && asked == name ==> gives(is, a[2]) && gives(q, a[2])
            &&& b[0] != a[0] || asked != name ==> is.r == was.r
            &&& gives(gone, 0)
        }),
{
    reveal(crate::win::get_prop_reply);
    reveal(crate::win::remove_prop_out);
    reveal(crate::win::set_prop_out);
    bound_set_prop(v, c, m, host, wide);
    lemma_read_2(v, c, m, a, 0, 1);
    lemma_read_1(v, c, m, a, 2);
    lemma_read_2(v, d, k, b, 0, 1);
    let o = dispatch_out(v, Api::Bound(Named::SetProp { wide }), c, m, host);
    assert(o.os.wide() == v.wide());
    bound_get_prop(v, d, k, host, wide);
    bound_get_prop(o.os, d, k, host, wide);
    bound_remove_prop(o.os, d, k, host, wide);
    let q = dispatch_out(o.os, Api::Bound(Named::RemoveProp { wide }), d, k, host);
    assert(q.os.wide() == v.wide());
    bound_get_prop(q.os, d, k, host, wide);
}

// ---- classes and windows ------------------------------------------------------

/// `RegisterClass` keeps, under the name of the class, the procedure that the record gives,
/// and forgets no other class.
pub proof fn lemma_registers_class(
    v: OsView,
    c: CpuView,
    m: MemView,
    host: HostReply,
    ex: bool,
    p: u64,
    proc: u64,
    q: u64,
    name: Seq<char>,
    other: Seq<char>,
)
    requires
        v.wide(),
        given(v, c, m, seq![p]),
        p + 72 <= u64::MAX,
        m.r64((p + 8) as u64) == Ok::<u64, Fault>(proc),
        m.r64((p + 64) as u64) == Ok::<u64, Fault>(q),
        wide_text(m, q) == Ok::<Seq<char>, Fault>(name),
    ensures
        ({
            let o = dispatch_out(v, Api::RegisterClassApi { ex }, c, m, host);
            &&& o.r is Ok && !gives(o, 0)
            &&& o.os.gdi.classes.contains_key(name) && o.os.gdi.classes[name] == proc
            &&& other != name ==> o.os.gdi.classes.contains_key(other)
                == v.gdi.classes.contains_key(other) && o.os.gdi.classes[other]
                == v.gdi.classes[other]
        }),
{
    reveal(crate::windows::register_out);
    serves_register_class_api(v, c, m, host, ex);
    assert(seq![p][0] == p);
}

/// What stands in a window of a registered class.
proof fn lemma_made(v: OsView, m: MemView, b: Seq<u64>, class: Seq<char>, other: u64)
    requires
        b.len() == 10,
        wide_text(m, b[1]) == Ok::<Seq<char>, Fault>(class),
        v.gdi.classes.contains_key(class),
        0 < b[6] < 0x8000_0000,
        0 < b[7] < 0x8000_0000,
    ensures
        ({
            let o = created(v.gdi, v.ui, m, window_spec(b));
            let h = v.gdi.next_hwnd;
            let w = o.gdi.windows[h];
            &&& o.r == Ok::<Option<u64>, Fault>(Some(h))
            &&& o.gdi.windows.contains_key(h)
            &&& w.class == class
            &&& w.wndproc == v.gdi.classes[class]
            &&& w.ex_style == b[0] as u32
            &&& w.style == b[3] as u32
            &&& w.rect == (Rect { a: b[4] as i32, b: b[5] as i32, c: b[6] as i32, d: b[7] as i32 })
            &&& w.parent == b[8]
            &&& other != h && v.gdi.windows.contains_key(other) ==> o.gdi.windows.contains_key(
                other,
            ) && o.gdi.windows[other] == v.gdi.windows[other]
        }),
{
    let x = b[6];
    let y = b[7];
    assert(((x as u32) as i64) as u32 as i32 == x as i32 && (x as u32) == x) by (bit_vector)
        requires
            0 < x < 0x8000_0000,
    ;
    assert(((y as u32) as i64) as u32 as i32 == y as i32 && (y as u32) == y) by (bit_vector)
        requires
            0 < y < 0x8000_0000,
    ;
}

/// Which of its arguments a call that creates a window reads.
proof fn lemma_window_list(i: int)
    requires
        0 <= i < 10,
    ensures
        window_args().len() == 10,
        window_args()[i] == if i < 9 {
            i
        } else {
            11
        },
{
}

/// What a call that creates a window reads of its arguments.
proof fn lemma_window_args(v: OsView, c: CpuView, m: MemView, a: Seq<u64>, list: Seq<u64>)
    requires
        given(v, c, m, a),
        a.len() == 12,
        list == window_args(),
    ensures
        args_at(v.wide(), c, m, list) == Ok::<Seq<u64>, Fault>(
            Seq::new(10, |i: int| a[if i < 9 { i } else { 11 }]),
        ),
{
    lemma_window_list(0);
    let want = Seq::new(10, |i: int| a[if i < 9 { i } else { 11 }]);
    assert forall|i: int| 0 <= i < list.len() implies (#[trigger] list[i]) < a.len() && want[i]
        == a[list[i] as int] by {
        lemma_window_list(i);
    }
    lemma_read_list(v, c, m, a, list, want);
}

/// Creating a window leaves what making it left.
proof fn lemma_made_kept(v: OsView, c: CpuView, m: MemView, b: Seq<u64>)
    requires
        args_at(v.wide(), c, m, window_args()) == Ok::<Seq<u64>, Fault>(b),
    ensures
        ({
            let o = created(v.gdi, v.ui, m, window_spec(b));
            let r = create_window_out(v, c, m);
            &&& r.os.gdi == o.gdi
            &&& o.r matches Ok(Some(h)) ==> h == 0xC1_0000 || gives(r, h)
        }),
{
    reveal(crate::windows::create_window_out);
}

/// `CreateWindowEx` makes the window that its arguments describe, for the procedure of its
/// class; the other windows stay. A window of a class that nobody registered is not made.
pub proof fn lemma_creates_window(
    v: OsView,
    c: CpuView,
    m: MemView,
    host: HostReply,
    a: Seq<u64>,
    class: Seq<char>,
    other: u64,
)
    requires
        given(v, c, m, a),
        a.len() == 12,
        wide_text(m, a[1]) == Ok::<Seq<char>, Fault>(class),
        0 < a[6] < 0x8000_0000,
        0 < a[7] < 0x8000_0000,
    ensures
        ({
            let o = dispatch_out(v, Api::CreateWindowExApi, c, m, host);
            let h = v.gdi.next_hwnd;
            let w = o.os.gdi.windows[h];
            &&& v.gdi.classes.contains_key(class) ==> {
                &&& o.os.gdi.windows.contains_key(h)
                &&& w.class == class
                &&& w.wndproc == v.gdi.classes[class]
                &&& w.ex_style == a[0] as u32
                &&& w.style == a[3] as u32
                &&& w.rect == (Rect {
                    a: a[4] as i32,
                    b: a[5] as i32,
                    c: a[6] as i32,
                    d: a[7] as i32,
                })
                &&& w.parent == a[8]
                &&& h != 0xC1_0000 ==> gives(o, h)
                &&& other != h && v.gdi.windows.contains_key(other)
                    ==> o.os.gdi.windows.contains_key(other) && o.os.gdi.windows[other]
                    == v.gdi.windows[other]
            }
            &&& !v.gdi.classes.contains_key(class) ==> o.os.gdi == v.gdi
        }),
{
    reveal(crate::windows::create_window_out);
    serves_create_window_ex_api(v, c, m, host);
    lemma_window_args(v, c, m, a, window_args());
    let b = Seq::new(10, |i: int| a[if i < 9 { i } else { 11 }]);
    lemma_made_kept(v, c, m, b);
    if v.gdi.classes.contains_key(class) {
        lemma_made(v, m, b, class, other);
    }
}

/// `GetDlgItem` answers with the window of the control with that number.
pub proof fn lemma_dialog_items(v: OsView, c: CpuView, m: MemView, host: HostReply, a: Seq<u64>)
    requires
        given(v, c, m, a),
        a.len() == 2,
        a[1] < 0x1_0000,
    ensures
        gives(dispatch_out(v, Api::GetDlgItemApi, c, m, host), (0xC0_0000 + a[1]) as u64),
        control_of((0xC0_0000 + a[1]) as u64) == Some(a[1] as u32),
{
    reveal(crate::dialogs::item_reply);
    serves_get_dlg_item_api(v, c, m, host);
    assert(arg_at(v.wide(), c, m, 1) == Ok::<u64, Fault>(a[1]));
    let x = a[1];
    assert(0xC0_0000u64 | ((x as u32) as u64) == 0xC0_0000 + x) by (bit_vector)
        requires
            x < 0x1_0000,
    ;
}

} // verus!
