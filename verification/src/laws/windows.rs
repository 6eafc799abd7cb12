//! Windows: messages, places, and what is drawn.

use vstd::prelude::*;

use crate::api::Api;
use crate::call::{arg_at, args_at};
use crate::cb::CallView;
use crate::cpu::CpuView;
use crate::dispatch::dispatch_out;
use crate::gdi::{rect_at, rgb, span, GdiView, ObjectView, Rect};
use crate::gstr::units_at;
use crate::host::HostReply;
use crate::laws::{
    given, gives, lemma_read_1, lemma_read_2, lemma_read_3, lemma_read_4, lemma_read_list,
};
use crate::laws::served::{
    bound_invalidate, bound_move_window, bound_post_message, bound_restore_dc, bound_save_dc,
    bound_translate_message, bound_validate, bound_window_long, bound_window_rect,
    serves_create_pen_api, serves_create_solid_brush_api, serves_dispatch_message_api,
    serves_fill_rect_api, serves_get_client_rect_api, serves_get_message_api, serves_line_to_api,
    serves_move_to_ex_api, serves_peek_message_api, serves_rectangle_api, serves_select_object_api,
    serves_set_pixel_api, serves_set_text_color_api, serves_text_out_api,
};
use crate::mem::{
    apart, lemma_find_region, lemma_le_value_bound, lemma_load_all_ok, lemma_pow256,
    lemma_store_all_get, lemma_sub_access, pow256, s32, s64, Fault, Load, MemView, Store,
};
use crate::msg::{msg_loads, msg_table};
use crate::named::Named;
use crate::os::OsView;
use crate::sched::PostedMsg;
use crate::text::utf16_lossy;
use crate::ui::EffectView;
use crate::win::{lemma_word_round_trip, long_out, packed, quad_table, shifted};

verus! {

// ---- messages ---------------------------------------------------------------

/// `PostMessage` puts the message behind those that wait, and `GetMessage` hands out the one
/// that waits longest, window, message and parameters, with 1; what waits behind it comes
/// next.
pub proof fn lemma_posts(
    v: OsView,
    c: CpuView,
    m: MemView,
    host: HostReply,
    a: Seq<u64>,
    i: int,
)
    requires
        v.sched.wf(),
        given(v, c, m, a),
        a.len() == 4,
        a[1] as u32 != 0x12,
    ensures
        ({
            let o = dispatch_out(v, Api::Bound(Named::PostMessage), c, m, host);
            let q = v.sched.me().msgs;
            let r = o.os.sched.me().msgs;
            &&& gives(o, 1)
            &&& r.len() == q.len() + 1
            &&& 0 <= i < q.len() ==> r[i] == q[i]
            &&& r[q.len() as int] == (PostedMsg {
                hwnd: a[0],
                message: a[1] as u32,
                wparam: a[2],
                lparam: a[3],
            })
            &&& o.os.sched.current == v.sched.current
        }),
{
    reveal(crate::msg::post_out);
    bound_post_message(v, c, m, host);
    lemma_read_4(v, c, m, a, 0, 1, 2, 3);
}

/// The fields of a message record in 64-bit code.
proof fn lemma_msg_fields(m: MemView, p: u64, x: PostedMsg)
    requires
        p != 0,
        p + 48 <= u64::MAX,
        m.wf(),
        m.can_read(p as int, 48),
        m.store_all(msg_table(true, p, x)).fault is None,
    ensures
        ({
            let k = m.store_all(msg_table(true, p, x)).mem;
            &&& k.r64(p) == Ok::<u64, Fault>(x.hwnd)
            &&& k.r32((p + 8) as u64) == Ok::<u32, Fault>(x.message)
            &&& k.r64((p + 16) as u64) == Ok::<u64, Fault>(x.wparam)
            &&& k.r64((p + 24) as u64) == Ok::<u64, Fault>(x.lparam)
        }),
{
    let t = msg_table(true, p, x);
    lemma_pow256();
    lemma_sub_access(m, p as int, 48, p as int, 8);
    lemma_sub_access(m, p as int, 48, p + 8, 4);
    lemma_sub_access(m, p as int, 48, p + 16, 8);
    lemma_sub_access(m, p as int, 48, p + 24, 8);
    assert(t.len() == 52);
    assert(t[48] == s64(p, x.hwnd));
    assert(t[49] == s32((p + 8) as u64, x.message));
    assert(t[50] == s64((p + 16) as u64, x.wparam));
    assert(t[51] == s64((p + 24) as u64, x.lparam));
    assert forall|i: int, j: int| 48 <= i < j < 52 implies apart(
        #[trigger] t[i],
        #[trigger] t[j],
    ) by {}
    lemma_store_all_get(m, t, 48);
    lemma_store_all_get(m, t, 49);
    lemma_store_all_get(m, t, 50);
    lemma_store_all_get(m, t, 51);
}

/// `GetMessage` hands out the message that waits longest, and takes it off the queue; it
/// answers with 0 for the message that ends the loop, and else with 1.
pub proof fn lemma_gets_message(
    v: OsView,
    c: CpuView,
    m: MemView,
    host: HostReply,
    p: u64,
    i: int,
)
    requires
        v.wide(),
        v.sched.wf(),
        given(v, c, m, seq![p]),
        v.sched.me().msgs.len() > 0,
        p != 0,
        p + 48 <= u64::MAX,
        m.wf(),
        m.can_read(p as int, 48),
        dispatch_out(v, Api::GetMessageApi, c, m, host).r is Ok,
    ensures
        ({
            let o = dispatch_out(v, Api::GetMessageApi, c, m, host);
            let q = v.sched.me().msgs;
            let r = o.os.sched.me().msgs;
            &&& gives(
                o,
                if q[0].message == 0x12 {
                    0
                } else {
                    1
                },
            )
            &&& o.mem.r64(p) == Ok::<u64, Fault>(q[0].hwnd)
            &&& o.mem.r32((p + 8) as u64) == Ok::<u32, Fault>(q[0].message)
            &&& o.mem.r64((p + 16) as u64) == Ok::<u64, Fault>(q[0].wparam)
            &&& o.mem.r64((p + 24) as u64) == Ok::<u64, Fault>(q[0].lparam)
            &&& r.len() == q.len() - 1
            &&& 0 <= i < r.len() ==> r[i] == q[i + 1]
        }),
{
    reveal(crate::dialogs::get_message_out);
    serves_get_message_api(v, c, m, host);
    assert(seq![p][0] == p);
    lemma_msg_fields(m, p, v.sched.me().msgs[0]);
}

/// `PeekMessage` hands out the same message and answers with 1; it takes it off the queue
/// exactly where it is asked to.
pub proof fn lemma_peeks_message(
    v: OsView,
    c: CpuView,
    m: MemView,
    host: HostReply,
    a: Seq<u64>,
)
    requires
        v.wide(),
        v.sched.wf(),
        given(v, c, m, a),
        a.len() == 5,
        v.sched.me().msgs.len() > 0,
        a[0] != 0,
        a[0] + 48 <= u64::MAX,
        m.wf(),
        m.can_read(a[0] as int, 48),
        dispatch_out(v, Api::PeekMessageApi, c, m, host).r is Ok,
    ensures
        ({
            let o = dispatch_out(v, Api::PeekMessageApi, c, m, host);
            let q = v.sched.me().msgs;
            let r = o.os.sched.me().msgs;
            &&& gives(o, 1)
            &&& o.mem.r32((a[0] + 8) as u64) == Ok::<u32, Fault>(q[0].message)
            &&& o.mem.r64((a[0] + 16) as u64) == Ok::<u64, Fault>(q[0].wparam)
            &&& a[4] % 2 == 1 ==> r == q.skip(1)
            &&& a[4] % 2 == 0 ==> r == q
        }),
{
    reveal(crate::dialogs::peek_message_out);
    serves_peek_message_api(v, c, m, host);
    lemma_read_2(v, c, m, a, 0, 4);
    lemma_msg_fields(m, a[0], v.sched.me().msgs[0]);
}

/// The loads of a message record that stands in memory.
proof fn lemma_msg_read(m: MemView, p: u64, h: u64, x: u32, w: u64, l: u64)
    requires
        p + 32 <= u64::MAX,
        m.r64(p) == Ok::<u64, Fault>(h),
        m.r32((p + 8) as u64) == Ok::<u32, Fault>(x),
        m.r64((p + 16) as u64) == Ok::<u64, Fault>(w),
        m.r64((p + 24) as u64) == Ok::<u64, Fault>(l),
    ensures
        m.load_all(msg_loads(true, p)) == Ok::<Seq<u64>, Fault>(seq![h, x as u64, w, l]),
{
    let t = msg_loads(true, p);
    lemma_pow256();
    lemma_load_all_ok(m, t);
    lemma_le_value_bound(m.bytes_at(p + 8, 4));
    let s = m.load_all(t)->Ok_0;
    assert(t[0] == Load { addr: p, size: 8 });
    assert(t[1] == Load { addr: (p + 8) as u64, size: 4 });
    assert(t[2] == Load { addr: (p + 16) as u64, size: 8 });
    assert(t[3] == Load { addr: (p + 24) as u64, size: 8 });
    lemma_read_small(m, p, 8);
    lemma_read_small(m, (p + 8) as u64, 4);
    lemma_read_small(m, (p + 16) as u64, 8);
    lemma_read_small(m, (p + 24) as u64, 8);
    assert(s =~= seq![h, x as u64, w, l]);
}

proof fn lemma_read_small(m: MemView, a: u64, n: nat)
    requires
        n == 4 || n == 8,
        m.can_read(a as int, n as int),
    ensures
        m.read_le(a, n) is Ok,
        m.read_le(a, n)->Ok_0 < pow256(n),
{
    lemma_find_region(m.regions, a as int);
    lemma_le_value_bound(m.bytes_at(a as int, n as int));
}

/// `TranslateMessage` answers a key press with 1 and posts the character that the key stands
/// for: a digit, or the small letter of a letter key. Other messages are answered with 0.
pub proof fn lemma_translates(
    v: OsView,
    c: CpuView,
    m: MemView,
    host: HostReply,
    p: u64,
    h: u64,
    x: u32,
    w: u64,
    l: u64,
    k: int,
)
    requires
        v.wide(),
        v.sched.wf(),
        given(v, c, m, seq![p]),
        p != 0,
        p + 32 <= u64::MAX,
        m.r64(p) == Ok::<u64, Fault>(h),
        m.r32((p + 8) as u64) == Ok::<u32, Fault>(x),
        m.r64((p + 16) as u64) == Ok::<u64, Fault>(w),
        m.r64((p + 24) as u64) == Ok::<u64, Fault>(l),
    ensures
        ({
            let o = dispatch_out(v, Api::Bound(Named::TranslateMessage), c, m, host);
            let q = v.sched.me().msgs;
            let r = o.os.sched.me().msgs;
            let press = x == 0x100 || x == 0x104;
            let kind: u32 = if x == 0x100 {
                0x102
            } else {
                0x106
            };
            &&& gives(
                o,
                if press {
                    1
                } else {
                    0
                },
            )
            &&& !press ==> r == q
            &&& press && 0 <= k < 26 && w == 'A' as int + k ==> r == q.push(
                PostedMsg { hwnd: h, message: kind, wparam: ('a' as int + k) as u64, lparam: 0 },
            )
            &&& press && 0 <= k < 10 && w == '0' as int + k ==> r == q.push(
                PostedMsg { hwnd: h, message: kind, wparam: ('0' as int + k) as u64, lparam: 0 },
            )
        }),
{
    bound_translate_message(v, c, m, host);
    lemma_read_1(v, c, m, seq![p], 0);
    lemma_msg_read(m, p, h, x, w, l);
    assert(w <= 0xff ==> w as u32 == w) by (bit_vector);
}

/// `DispatchMessage` calls the procedure of the window that a message is for with the window,
/// the message and its parameters.
pub proof fn lemma_dispatches(
    v: OsView,
    c: CpuView,
    m: MemView,
    host: HostReply,
    p: u64,
    h: u64,
    x: u32,
    w: u64,
    l: u64,
)
    requires
        v.wide(),
        given(v, c, m, seq![p]),
        p + 32 <= u64::MAX,
        m.r64(p) == Ok::<u64, Fault>(h),
        m.r32((p + 8) as u64) == Ok::<u32, Fault>(x),
        m.r64((p + 16) as u64) == Ok::<u64, Fault>(w),
        m.r64((p + 24) as u64) == Ok::<u64, Fault>(l),
        v.gdi.windows.contains_key(h),
        v.gdi.windows[h].wndproc != 0,
    ensures
        dispatch_out(v, Api::DispatchMessageApi, c, m, host) == v.calling(
            c,
            m,
            seq![
                CallView { func: v.gdi.windows[h].wndproc, args: seq![h, x as u64, w, l] },
            ],
            0,
            1,
            false,
        ),
{
    reveal(crate::windows::dispatch_message_out);
    serves_dispatch_message_api(v, c, m, host);
    assert(seq![p][0] == p);
    lemma_msg_read(m, p, h, x, w, l);
}

// ---- windows ----------------------------------------------------------------

/// A number that was stored as part of four, and read back.
proof fn lemma_quad(m: MemView, p: u64, t: Seq<Store>, i: int)
    requires
        p != 0,
        p + 16 <= u64::MAX,
        m.wf(),
        m.can_read(p as int, 16),
        t.len() == 4,
        forall|j: int|
            0 <= j < 4 ==> (#[trigger] t[j]).addr == p + 4 * j && t[j].size == 4 && t[j].value
                <= u32::MAX,
        m.store_all(t).fault is None,
        0 <= i < 4,
    ensures
        m.store_all(t).mem.r32((p + 4 * i) as u64) == Ok::<u32, Fault>(t[i].value as u32),
{
    lemma_pow256();
    lemma_sub_access(m, p as int, 16, p + 4 * i, 4);
    assert forall|j: int| i < j < t.len() implies apart(t[i], #[trigger] t[j]) by {
        assert(t[i].addr == p + 4 * i);
    }
    lemma_store_all_get(m, t, i);
}

/// `GetWindowRect` tells the corners of a window on the screen.
pub proof fn lemma_tells_rect(v: OsView, c: CpuView, m: MemView, host: HostReply, a: Seq<u64>)
    requires
        given(v, c, m, a),
        a.len() == 2,
        v.gdi.windows.contains_key(a[0]),
        a[1] != 0,
        a[1] + 16 <= u64::MAX,
        m.wf(),
        m.can_read(a[1] as int, 16),
        0 <= v.gdi.windows[a[0]].rect.a,
        0 <= v.gdi.windows[a[0]].rect.b,
        0 <= v.gdi.windows[a[0]].rect.c,
        0 <= v.gdi.windows[a[0]].rect.d,
        dispatch_out(v, Api::Bound(Named::WindowRect), c, m, host).r is Ok,
    ensures
        ({
            let o = dispatch_out(v, Api::Bound(Named::WindowRect), c, m, host).mem;
            let r = v.gdi.windows[a[0]].rect;
            &&& o.r32(a[1]) == Ok::<u32, Fault>(r.a as u32)
            &&& o.r32((a[1] + 4) as u64) == Ok::<u32, Fault>(r.b as u32)
            &&& o.r32((a[1] + 8) as u64) == Ok::<u32, Fault>((r.a + r.c) as u32)
            &&& o.r32((a[1] + 12) as u64) == Ok::<u32, Fault>((r.b + r.d) as u32)
        }),
{
    reveal(crate::win::rect_reply);
    bound_window_rect(v, c, m, host);
    lemma_read_2(v, c, m, a, 0, 1);
    let r = v.gdi.windows[a[0]].rect;
    let t = quad_table(a[1], r.a as u32, r.b as u32, shifted(r.a, r.c), shifted(r.b, r.d));
    lemma_quad(m, a[1], t, 0);
    lemma_quad(m, a[1], t, 1);
    lemma_quad(m, a[1], t, 2);
    lemma_quad(m, a[1], t, 3);
}

/// `GetClientRect` tells the size of a window, from the origin.
pub proof fn lemma_tells_client(v: OsView, c: CpuView, m: MemView, host: HostReply, a: Seq<u64>)
    requires
        given(v, c, m, a),
        a.len() == 2,
        v.gdi.windows.contains_key(a[0]),
        a[1] != 0,
        a[1] + 16 <= u64::MAX,
        m.wf(),
        m.can_read(a[1] as int, 16),
        dispatch_out(v, Api::GetClientRectApi, c, m, host).r is Ok,
    ensures
        ({
            let o = dispatch_out(v, Api::GetClientRectApi, c, m, host).mem;
            let r = v.gdi.windows[a[0]].rect;
            &&& o.r32(a[1]) == Ok::<u32, Fault>(0)
            &&& o.r32((a[1] + 4) as u64) == Ok::<u32, Fault>(0)
            &&& o.r32((a[1] + 8) as u64) == Ok::<u32, Fault>(r.c as u32)
            &&& o.r32((a[1] + 12) as u64) == Ok::<u32, Fault>(r.d as u32)
        }),
{
    reveal(crate::win::client_reply);
    serves_get_client_rect_api(v, c, m, host);
    lemma_read_2(v, c, m, a, 0, 1);
    let r = v.gdi.windows[a[0]].rect;
    let t = quad_table(a[1], 0, 0, r.c as u32, r.d as u32);
    lemma_quad(m, a[1], t, 0);
    lemma_quad(m, a[1], t, 1);
    lemma_quad(m, a[1], t, 2);
    lemma_quad(m, a[1], t, 3);
}

/// `MoveWindow` puts a window where it is asked to, tells it so where it moved or changed its
/// size, the coordinates in the halves of a parameter, and makes all of it invalid where a
/// repaint is asked for. No other window changes.
pub proof fn lemma_moves_window(
    v: OsView,
    c: CpuView,
    m: MemView,
    host: HostReply,
    a: Seq<u64>,
    other: u64,
)
    requires
        v.sched.wf(),
        given(v, c, m, a),
        a.len() == 6,
        v.gdi.windows.contains_key(a[0]),
        a[1] <= 0x7fff,
        a[2] <= 0x7fff,
        a[3] <= 0x7fff,
        a[4] <= 0x7fff,
    ensures
        ({
            let o = dispatch_out(v, Api::Bound(Named::MoveWindow), c, m, host);
            let w = v.gdi.windows[a[0]];
            let x = o.os.gdi.windows[a[0]];
            &&& gives(o, 1)
            &&& x.rect.a == a[1] && x.rect.b == a[2] && x.rect.c == a[3] && x.rect.d == a[4]
            &&& a[5] != 0 ==> x.paint_pending && x.update_rect.a == 0 && x.update_rect.b == 0
                && x.update_rect.c == a[3] && x.update_rect.d == a[4]
            &&& a[5] == 0 ==> x.paint_pending == w.paint_pending
            &&& other != a[0] && v.gdi.windows.contains_key(other)
                ==> o.os.gdi.windows.contains_key(other) && o.os.gdi.windows[other]
                == v.gdi.windows[other]
        }),
{
    reveal(crate::win::move_args);
    reveal(crate::bound::placed_out);
    bound_move_window(v, c, m, host);
    lemma_read_list(v, c, m, a, seq![0, 1, 2, 3, 4, 5], a);
    lemma_small_numbers(a[1]);
    lemma_small_numbers(a[2]);
    lemma_small_numbers(a[3]);
    lemma_small_numbers(a[4]);
}

proof fn lemma_small_numbers(x: u64)
    requires
        x <= 0x7fff,
    ensures
        x as i32 == x,
{
    assert(x <= 0x7fff ==> x as i32 == x) by (bit_vector);
}

/// Two coordinates are packed low half first.
pub proof fn lemma_packs(x: i32, y: i32)
    requires
        0 <= x < 0x1_0000,
        0 <= y < 0x1_0000,
    ensures
        packed(x, y) % 0x1_0000 == x,
        packed(x, y) / 0x1_0000 == y,
{
}

/// What is invalid of a window grows until it is painted: it is the smallest part that covers
/// what was invalid and what is invalidated.
pub proof fn lemma_invalidates(
    v: OsView,
    c: CpuView,
    m: MemView,
    host: HostReply,
    a: Seq<u64>,
    q: Rect,
)
    requires
        given(v, c, m, a),
        a.len() == 2,
        v.gdi.windows.contains_key(a[0]),
        a[1] != 0,
        rect_at(m, a[1]) == Ok::<Rect, Fault>(q),
    ensures
        ({
            let o = dispatch_out(v, Api::Bound(Named::Invalidate), c, m, host);
            let p = dispatch_out(v, Api::Bound(Named::Validate), c, m, host);
            let w = v.gdi.windows[a[0]];
            let x = o.os.gdi.windows[a[0]];
            let u = w.update_rect;
            let r = x.update_rect;
            &&& gives(o, 1)
            &&& x.paint_pending
            &&& !w.paint_pending ==> r == q
            &&& w.paint_pending ==> {
                &&& r.a <= u.a && r.b <= u.b && u.c <= r.c && u.d <= r.d
                &&& r.a <= q.a && r.b <= q.b && q.c <= r.c && q.d <= r.d
                &&& r.a == u.a || r.a == q.a
                &&& r.b == u.b || r.b == q.b
                &&& r.c == u.c || r.c == q.c
                &&& r.d == u.d || r.d == q.d
            }
            &&& gives(p, 1)
            &&& !p.os.gdi.windows[a[0]].paint_pending
        }),
{
    reveal(crate::bound::invalidate_out);
    reveal(crate::bound::validate_out);
    bound_invalidate(v, c, m, host);
    bound_validate(v, c, m, host);
    lemma_read_2(v, c, m, a, 0, 1);
    assert(arg_at(v.wide(), c, m, 0) == Ok::<u64, Fault>(a[0]));
}

/// What setting a word of a window leads to.
proof fn lemma_word_set(g: GdiView, is_64bit: bool, c: CpuView, m: MemView, a: Seq<u64>)
    requires
        args_at(is_64bit, c, m, seq![0, 1, 2]) == Ok::<Seq<u64>, Fault>(seq![a[0], a[1], a[2]]),
        g.windows.contains_key(a[0]),
    ensures
        ({
            let o = long_out(g, is_64bit, c, m, true);
            let w = g.windows[a[0]];
            &&& o.gdi.windows.contains_key(a[0])
            &&& o.gdi.windows[a[0]] == w.with_word(a[1] as u32, a[2])
            &&& o.reply.r == Ok::<u64, Fault>(w.word(a[1] as u32))
        }),
{
    reveal(long_out);
}

/// What asking for a word of a window answers with.
proof fn lemma_word_told(g: GdiView, is_64bit: bool, c: CpuView, m: MemView, b: Seq<u64>)
    requires
        args_at(is_64bit, c, m, seq![0, 1]) == Ok::<Seq<u64>, Fault>(seq![b[0], b[1]]),
        g.windows.contains_key(b[0]),
    ensures
        long_out(g, is_64bit, c, m, false).reply.r == Ok::<u64, Fault>(
            g.windows[b[0]].word(b[1] as u32),
        ),
{
    reveal(long_out);
}

/// `SetWindowLong` keeps a word of a window and answers with what it was; `GetWindowLong`
/// then answers with it. Other words and other windows stay.
pub proof fn lemma_window_words(
    v: OsView,
    c: CpuView,
    m: MemView,
    host: HostReply,
    a: Seq<u64>,
    d: CpuView,
    n: MemView,
    b: Seq<u64>,
)
    requires
        given(v, c, m, a),
        a.len() == 3,
        given(v, d, n, b),
        b.len() == 2,
        b[0] == a[0],
        v.gdi.windows.contains_key(a[0]),
    ensures
        ({
            let o = dispatch_out(v, Api::Bound(Named::WindowLong { set: true }), c, m, host);
            let p = dispatch_out(o.os, Api::Bound(Named::WindowLong { set: false }), d, n, host);
            let q = dispatch_out(v, Api::Bound(Named::WindowLong { set: false }), d, n, host);
            let i = a[1] as u32;
            &&& b[1] as u32 == i ==> o.r == q.r
            &&& b[1] as u32 == i && i != 0xFFFF_FFF0 && i != 0xFFFF_FFEC ==> gives(p, a[2])
            &&& b[1] as u32 != i ==> p.r == q.r
            &&& i == 0xFFFF_FFFC ==> o.os.gdi.windows[a[0]].wndproc == a[2]
        }),
{
    bound_window_long(v, c, m, host, true);
    lemma_read_3(v, c, m, a, 0, 1, 2);
    let o = dispatch_out(v, Api::Bound(Named::WindowLong { set: true }), c, m, host);
    lemma_word_set(v.gdi, v.wide(), c, m, a);
    assert(o.os.wide() == v.wide());
    bound_window_long(o.os, d, n, host, false);
    bound_window_long(v, d, n, host, false);
    lemma_read_2(v, d, n, b, 0, 1);
    lemma_word_told(v.gdi, v.wide(), d, n, b);
    lemma_word_told(o.os.gdi, v.wide(), d, n, b);
    lemma_word_round_trip(v.gdi.windows[a[0]], a[1] as u32, a[2], b[1] as u32);
}

// ---- drawing ----------------------------------------------------------------

/// A color of a call names blue, green and red from the high byte down; the window gets red,
/// green and blue.
pub proof fn lemma_colors(r: u32, g: u32, b: u32)
    requires
        r < 256,
        g < 256,
        b < 256,
    ensures
        rgb((b * 65536 + g * 256 + r) as u32) == r * 65536 + g * 256 + b,
{
    let x = (b * 65536 + g * 256 + r) as u32;
    assert(x % 256 == r && x / 256 % 256 == g && x / 65536 % 256 == b) by (bit_vector)
        requires
            r < 256,
            g < 256,
            b < 256,
            x == b * 65536 + g * 256 + r,
    ;
}

/// `FillRect` fills the part of the window between the corners that it is given, with the
/// color of the brush.
pub proof fn lemma_fills_rect(
    v: OsView,
    c: CpuView,
    m: MemView,
    host: HostReply,
    a: Seq<u64>,
    q: Rect,
)
    requires
        given(v, c, m, a),
        a.len() == 3,
        rect_at(m, a[1]) == Ok::<Rect, Fault>(q),
        0 <= q.a <= q.c,
        0 <= q.b <= q.d,
        v.gdi.objects.contains_key(a[2]),
        v.gdi.objects[a[2]] is Brush,
    ensures
        ({
            let o = dispatch_out(v, Api::FillRectApi, c, m, host);
            &&& gives(o, 1)
            &&& o.os.ui.effects == v.ui.effects.push(
                EffectView::FillRect {
                    x: q.a,
                    y: q.b,
                    w: (q.c - q.a) as i32,
                    h: (q.d - q.b) as i32,
                    color: v.gdi.objects[a[2]]->Brush_0,
                },
            )
        }),
{
    reveal(crate::windows::fill_rect_out);
    serves_fill_rect_api(v, c, m, host);
    lemma_read_2(v, c, m, a, 1, 2);
    lemma_span(q.c, q.a);
    lemma_span(q.d, q.b);
}

proof fn lemma_span(x: i32, y: i32)
    requires
        0 <= y <= x,
    ensures
        span(x, y) == x - y,
{
    let d = (x - y) as u32;
    assert(d <= 0x7fff_ffff);
    assert(d <= 0x7fff_ffff ==> d as i32 == d) by (bit_vector);
}

/// `LineTo` draws from where the pen is to the point it is given, in the color of the pen, and
/// leaves the pen there; `MoveToEx` moves it without drawing.
pub proof fn lemma_draws_line(
    v: OsView,
    c: CpuView,
    m: MemView,
    host: HostReply,
    a: Seq<u64>,
)
    requires
        given(v, c, m, a),
        a.len() == 3,
    ensures
        ({
            let o = dispatch_out(v, Api::LineToApi, c, m, host);
            let p = dispatch_out(v, Api::MoveToExApi, c, m, host);
            &&& gives(o, 1)
            &&& gives(p, 1)
            &&& o.os.ui.effects == v.ui.effects.push(
                EffectView::Line {
                    x0: v.gdi.dc.x,
                    y0: v.gdi.dc.y,
                    x1: a[1] as i32,
                    y1: a[2] as i32,
                    color: v.gdi.dc.pen_color,
                },
            )
            &&& o.os.gdi.dc.x == a[1] as i32 && o.os.gdi.dc.y == a[2] as i32
            &&& p.os.gdi.dc == o.os.gdi.dc
            &&& p.os.ui == v.ui
        }),
{
    reveal(crate::windows::move_to_out);
    serves_line_to_api(v, c, m, host);
    serves_move_to_ex_api(v, c, m, host);
    lemma_read_2(v, c, m, a, 1, 2);
}

/// A brush or a pen that is made has the color it was made with, and once it is selected,
/// shapes are filled or drawn with it.
pub proof fn lemma_makes_tools(
    v: OsView,
    c: CpuView,
    m: MemView,
    host: HostReply,
    a: Seq<u64>,
)
    requires
        given(v, c, m, a),
        a.len() == 3,
        v.gdi.next_object <= u64::MAX - 8,
    ensures
        ({
            let b = dispatch_out(v, Api::CreateSolidBrushApi, c, m, host);
            let p = dispatch_out(v, Api::CreatePenApi, c, m, host);
            let h = v.gdi.next_object;
            &&& gives(b, h)
            &&& gives(p, h)
            &&& b.os.gdi.selected(h).0.dc.brush_color == rgb(a[0] as u32)
            &&& b.os.gdi.selected(h).0.dc.pen_color == v.gdi.dc.pen_color
            &&& p.os.gdi.selected(h).0.dc.pen_color == rgb(a[2] as u32)
            &&& p.os.gdi.selected(h).0.dc.brush_color == v.gdi.dc.brush_color
            &&& b.os.gdi.next_object > h
        }),
{
    reveal(crate::windows::brush_out);
    reveal(crate::windows::pen_out);
    serves_create_solid_brush_api(v, c, m, host);
    serves_create_pen_api(v, c, m, host);
    assert(arg_at(v.wide(), c, m, 0) == Ok::<u64, Fault>(a[0]));
    assert(arg_at(v.wide(), c, m, 2) == Ok::<u64, Fault>(a[2]));
}

/// `Rectangle` fills between its corners with the selected brush, and then frames with the
/// selected pen.
pub proof fn lemma_draws_shapes(
    v: OsView,
    c: CpuView,
    m: MemView,
    host: HostReply,
    a: Seq<u64>,
)
    requires
        given(v, c, m, a),
        a.len() == 5,
        a[1] <= a[3] <= 0x7fff,
        a[2] <= a[4] <= 0x7fff,
    ensures
        ({
            let o = dispatch_out(v, Api::RectangleApi, c, m, host);
            let n = v.ui.effects.len() as int;
            let w = (a[3] - a[1]) as i32;
            let h = (a[4] - a[2]) as i32;
            &&& gives(o, 1)
            &&& o.os.ui.effects.len() == n + 2
            &&& o.os.ui.effects[n] == (EffectView::FillRect {
                x: a[1] as i32,
                y: a[2] as i32,
                w,
                h,
                color: v.gdi.dc.brush_color,
            })
            &&& o.os.ui.effects[n + 1] == (EffectView::FrameRect {
                x: a[1] as i32,
                y: a[2] as i32,
                w,
                h,
                color: v.gdi.dc.pen_color,
            })
        }),
{
    reveal(crate::windows::rectangle_out);
    serves_rectangle_api(v, c, m, host);
    lemma_read_4(v, c, m, a, 1, 2, 3, 4);
    lemma_small_numbers(a[1]);
    lemma_small_numbers(a[2]);
    lemma_small_numbers(a[3]);
    lemma_small_numbers(a[4]);
    lemma_span(a[3] as i32, a[1] as i32);
    lemma_span(a[4] as i32, a[2] as i32);
}

/// `SetPixel` colors one point.
pub proof fn lemma_draws_pixel(v: OsView, c: CpuView, m: MemView, host: HostReply, a: Seq<u64>)
    requires
        given(v, c, m, a),
        a.len() == 4,
    ensures
        dispatch_out(v, Api::SetPixelApi, c, m, host).os.ui.effects == v.ui.effects.push(
            EffectView::Pixel { x: a[1] as i32, y: a[2] as i32, color: rgb(a[3] as u32) },
        ),
{
    reveal(crate::windows::pixel_out);
    serves_set_pixel_api(v, c, m, host);
    lemma_read_3(v, c, m, a, 1, 2, 3);
}

/// `SetTextColor` gives the color of the text that `TextOut` then draws: as many units as it is
/// told, at the place that it is told.
pub proof fn lemma_draws_text(
    v: OsView,
    c: CpuView,
    m: MemView,
    host: HostReply,
    a: Seq<u64>,
    d: CpuView,
    k: MemView,
    b: Seq<u64>,
    u: Seq<u16>,
)
    requires
        given(v, c, m, a),
        a.len() == 2,
        given(v, d, k, b),
        b.len() == 5,
        units_at(k, b[3]) == Ok::<Seq<u16>, Fault>(u),
        b[4] <= u.len(),
    ensures
        ({
            let s = dispatch_out(v, Api::SetTextColorApi, c, m, host);
            let o = dispatch_out(s.os, Api::TextOutApi, d, k, host);
            &&& gives(s, v.gdi.dc.text_color as u64)
            &&& gives(o, 1)
            &&& o.os.ui.effects == v.ui.effects.push(
                EffectView::Text {
                    x: b[1] as i32,
                    y: b[2] as i32,
                    text: utf16_lossy(u.take(b[4] as int)),
                    color: rgb(a[1] as u32),
                },
            )
        }),
{
    reveal(crate::windows::text_color_out);
    reveal(crate::windows::text_out_out);
    serves_set_text_color_api(v, c, m, host);
    assert(arg_at(v.wide(), c, m, 1) == Ok::<u64, Fault>(a[1]));
    let s = dispatch_out(v, Api::SetTextColorApi, c, m, host);
    assert(s.os.wide() == v.wide());
    serves_text_out_api(s.os, d, k, host);
    lemma_read_4(v, d, k, b, 1, 2, 3, 4);
    assert(u.take(u.len() as int) =~= u);
}

/// `SaveDC` answers with a level that `RestoreDC` brings the drawing state back from, whatever
/// was chosen in between, as -1 does; what was saved before stays.
pub proof fn lemma_restores_state(
    v: OsView,
    c: CpuView,
    m: MemView,
    host: HostReply,
    w: OsView,
    d: CpuView,
    k: MemView,
    b: Seq<u64>,
    n: u64,
)
    requires
        v.gdi.saved.len() < 0x7fff_ffff,
        gives(dispatch_out(v, Api::Bound(Named::SaveDc), c, m, host), n),
        w.gdi.saved == dispatch_out(v, Api::Bound(Named::SaveDc), c, m, host).os.gdi.saved,
        given(w, d, k, b),
        b.len() == 2,
        b[1] == n || b[1] == 0xFFFF_FFFF,
    ensures
        ({
            let o = dispatch_out(w, Api::Bound(Named::RestoreDc), d, k, host);
            &&& gives(o, 1)
            &&& o.os.gdi.dc == v.gdi.dc
            &&& o.os.gdi.saved == v.gdi.saved
        }),
{
    reveal(crate::bound::restore_out);
    bound_save_dc(v, c, m, host);
    bound_restore_dc(w, d, k, host);
    assert(arg_at(w.wide(), d, k, 1) == Ok::<u64, Fault>(b[1]));
    assert(0xFFFF_FFFFu64 as i32 == -1i32) by (bit_vector);
    if b[1] == n {
        assert(n as i32 == n) by (bit_vector)
            requires
                n <= 0x7fff_ffff,
        ;
    }
    assert(w.gdi.saved.take(v.gdi.saved.len() as int) =~= v.gdi.saved);
}

/// `SelectObject` makes lines take the color of a pen and areas that of a brush, and answers
/// with what was selected before: selecting that again answers with the object.
pub proof fn lemma_selects(
    v: OsView,
    c: CpuView,
    m: MemView,
    host: HostReply,
    a: Seq<u64>,
    d: CpuView,
    k: MemView,
    b: Seq<u64>,
)
    requires
        given(v, c, m, a),
        a.len() == 2,
        v.gdi.objects.contains_key(a[1]),
        given(v, d, k, b),
        b.len() == 2,
        gives(dispatch_out(v, Api::SelectObjectApi, c, m, host), b[1]),
        v.gdi.objects.contains_key(b[1]),
        v.gdi.objects[a[1]] is Pen == v.gdi.objects[b[1]] is Pen,
        v.gdi.objects[a[1]] is Brush == v.gdi.objects[b[1]] is Brush,
    ensures
        ({
            let o = dispatch_out(v, Api::SelectObjectApi, c, m, host);
            let p = dispatch_out(o.os, Api::SelectObjectApi, d, k, host);
            &&& v.gdi.objects[a[1]] matches ObjectView::Pen(x) ==> o.os.gdi.dc.pen_color == x
                && o.os.gdi.dc.brush_color == v.gdi.dc.brush_color
            &&& v.gdi.objects[a[1]] matches ObjectView::Brush(x) ==> o.os.gdi.dc.brush_color == x
                && o.os.gdi.dc.pen_color == v.gdi.dc.pen_color
            &&& gives(p, a[1])
        }),
{
    serves_select_object_api(v, c, m, host);
    assert(arg_at(v.wide(), c, m, 1) == Ok::<u64, Fault>(a[1]));
    let o = dispatch_out(v, Api::SelectObjectApi, c, m, host);
    assert(o.os.wide() == v.wide());
    serves_select_object_api(o.os, d, k, host);
    assert(arg_at(v.wide(), d, k, 1) == Ok::<u64, Fault>(b[1]));
}

} // verus!
