//! What guest code asks of a window and keeps with it.

use vstd::prelude::*;

use vstd::utf8::encode_utf8;

use crate::call::{answer, answer_stores, args, args_at, faulted, Reply};
use crate::cpu::{CpuState, CpuView};
use crate::gdi::{Gdi, GdiView, Rect, Window, WindowView};
use crate::gstr::{
    bytes_from, narrow_write, read_cstr, read_wstr, wide_text, wide_write, write_astr, write_wstr,
};
use crate::mem::{at, ga, s32, store32, Fault, MemView, Store, VirtualMemory};
use crate::ntreg::finish;
use crate::sched::PostedMsg;
use crate::text::{decode_utf8_lossy, numeral, numeral_chars, string_of, utf16, utf8_lossy};

verus! {

pub const WM_MOVE: u32 = 0x0003;

pub const WM_SIZE: u32 = 0x0005;

broadcast use vstd::std_specs::hash::group_hash_axioms;

/// What a window call leads to.
pub struct WinOut {
    pub gdi: GdiView,
    pub reply: Reply,
}

/// A window call that changed no window.
pub open spec fn same(g: GdiView, reply: Reply) -> WinOut {
    WinOut { gdi: g, reply }
}

// ---- window words -----------------------------------------------------------

/// The window procedure, as an index of a window word.
pub const GWL_WNDPROC: u32 = 0xFFFF_FFFC;

pub const GWL_HWNDPARENT: u32 = 0xFFFF_FFF8;

pub const GWL_STYLE: u32 = 0xFFFF_FFF0;

pub const GWL_EXSTYLE: u32 = 0xFFFF_FFEC;

pub const GWL_USERDATA: u32 = 0xFFFF_FFEB;

impl WindowView {
    /// A word of the window; an extra one that was never set is 0.
    pub open spec fn word(self, index: u32) -> u64 {
        if index == GWL_WNDPROC {
            self.wndproc
        } else if index == GWL_USERDATA {
            self.userdata
        } else if index == GWL_STYLE {
            self.style as u64
        } else if index == GWL_EXSTYLE {
            self.ex_style as u64
        } else if index == GWL_HWNDPARENT {
            self.parent
        } else if self.longs.contains_key(index) {
            self.longs[index]
        } else {
            0
        }
    }

    /// The window with a word set; styles keep the low half.
    pub open spec fn with_word(self, index: u32, v: u64) -> WindowView {
        if index == GWL_WNDPROC {
            WindowView { wndproc: v, ..self }
        } else if index == GWL_USERDATA {
            WindowView { userdata: v, ..self }
        } else if index == GWL_STYLE {
            WindowView { style: v as u32, ..self }
        } else if index == GWL_EXSTYLE {
            WindowView { ex_style: v as u32, ..self }
        } else if index == GWL_HWNDPARENT {
            WindowView { parent: v, ..self }
        } else {
            WindowView { longs: self.longs.insert(index, v), ..self }
        }
    }
}

/// A word that was set is read back, in full except that styles keep their low
/// half; every other word stays.
pub proof fn lemma_word_round_trip(w: WindowView, index: u32, v: u64, other: u32)
    ensures
        index != GWL_STYLE && index != GWL_EXSTYLE ==> w.with_word(index, v).word(index) == v,
        index == GWL_STYLE || index == GWL_EXSTYLE ==> w.with_word(index, v).word(index) == (
        v as u32) as u64,
        other != index ==> w.with_word(index, v).word(other) == w.word(other),
{
}

/// The arguments of `GetWindowLong` and `SetWindowLong`.
pub open spec fn long_args(set: bool) -> Seq<u64> {
    if set {
        seq![0, 1, 2]
    } else {
        seq![0, 1]
    }
}

/// `GetWindowLong` and `SetWindowLong`: the word as it was; 0 without a window.
#[verifier::opaque]
pub open spec fn long_out(g: GdiView, is_64bit: bool, c: CpuView, m: MemView, set: bool) -> WinOut {
    match args_at(is_64bit, c, m, long_args(set)) {
        Err(f) => same(g, faulted(m, f)),
        Ok(a) => if !g.windows.contains_key(a[0]) {
            same(g, answer(m, 0))
        } else {
            let w = g.windows[a[0]];
            let index = a[1] as u32;
            WinOut {
                gdi: if set {
                    g.with_window(a[0], w.with_word(index, a[2]))
                } else {
                    g
                },
                reply: answer(m, w.word(index)),
            }
        },
    }
}

/// Once the procedure of a window is replaced, its messages go to the new one; the
/// call answers with the one before, and every other window keeps its own.
pub proof fn lemma_subclassing(
    g: GdiView,
    is_64bit: bool,
    c: CpuView,
    m: MemView,
    h: u64,
    p: u64,
    other: u64,
)
    requires
        args_at(is_64bit, c, m, long_args(true)) == Ok::<Seq<u64>, Fault>(
            seq![h, GWL_WNDPROC as u64, p],
        ),
        g.windows.contains_key(h),
        other != h,
    ensures
        ({
            let o = long_out(g, is_64bit, c, m, true);
            &&& o.gdi.proc_of(h) == p
            &&& o.gdi.proc_of(other) == g.proc_of(other)
            &&& o.reply == answer(m, g.proc_of(h))
        }),
{
    reveal(long_out);
}

// ---- names and rectangles ---------------------------------------------------

/// `GetClassName`: the class name of a window, or none.
#[verifier::opaque]
pub open spec fn class_reply(g: GdiView, is_64bit: bool, c: CpuView, m: MemView, wide: bool) -> Reply {
    match args_at(is_64bit, c, m, seq![0, 1, 2]) {
        Err(f) => faulted(m, f),
        Ok(a) => {
            let name = if g.windows.contains_key(a[0]) {
                g.windows[a[0]].class
            } else {
                Seq::empty()
            };
            if wide {
                wide_write(m, a[1], utf16(name), a[2])
            } else {
                narrow_write(m, a[1], encode_utf8(name), a[2])
            }
        },
    }
}

/// The sum of two coordinates, modulo 2^32.
pub open spec fn shifted(x: i32, w: i32) -> u32 {
    ((x as u32 + w as u32) % 0x1_0000_0000) as u32
}

/// The stores of four numbers at `p`, unless it is null.
pub open spec fn quad_table(p: u64, a: u32, b: u32, c: u32, d: u32) -> Seq<Store> {
    if p == 0 {
        Seq::empty()
    } else {
        seq![s32(p, a), s32(ga(p, 4), b), s32(ga(p, 8), c), s32(ga(p, 12), d)]
    }
}

/// The stores of four numbers at `p`, unless it is null.
fn quad_stores(p: u64, a: u32, b: u32, c: u32, d: u32) -> (t: Vec<Store>)
    ensures
        t@ == quad_table(p, a, b, c, d),
{
    let t: Vec<Store> = if p == 0 {
        Vec::new()
    } else {
        vec![store32(p, a), store32(at(p, 4), b), store32(at(p, 8), c), store32(at(p, 12), d)]
    };
    assert(t@ =~= quad_table(p, a, b, c, d));
    t
}

/// `GetClientRect`: the size of a window from the origin.
#[verifier::opaque]
pub open spec fn client_reply(g: GdiView, is_64bit: bool, c: CpuView, m: MemView) -> Reply {
    match args_at(is_64bit, c, m, seq![0, 1]) {
        Err(f) => faulted(m, f),
        Ok(a) => {
            let r = g.rect_of(a[0]);
            answer_stores(m, quad_table(a[1], 0, 0, r.c as u32, r.d as u32), 1)
        },
    }
}

/// `GetWindowRect`: the corners of a window on the screen.
#[verifier::opaque]
pub open spec fn rect_reply(g: GdiView, is_64bit: bool, c: CpuView, m: MemView) -> Reply {
    match args_at(is_64bit, c, m, seq![0, 1]) {
        Err(f) => faulted(m, f),
        Ok(a) => {
            let r = g.rect_of(a[0]);
            answer_stores(
                m,
                quad_table(
                    a[1],
                    r.a as u32,
                    r.b as u32,
                    shifted(r.a, r.c),
                    shifted(r.b, r.d),
                ),
                1,
            )
        },
    }
}

/// `ShowWindow`: whether the window was visible.
#[verifier::opaque]
pub open spec fn show_out(g: GdiView, is_64bit: bool, c: CpuView, m: MemView) -> WinOut {
    match args_at(is_64bit, c, m, seq![0, 1]) {
        Err(f) => same(g, faulted(m, f)),
        Ok(a) => if !g.windows.contains_key(a[0]) {
            same(g, answer(m, 0))
        } else {
            let w = g.windows[a[0]];
            WinOut {
                gdi: g.with_window(a[0], WindowView { visible: a[1] != 0, ..w }),
                reply: answer(
                    m,
                    if w.visible {
                        1
                    } else {
                        0
                    },
                ),
            }
        },
    }
}

// ---- properties -------------------------------------------------------------

/// The name of a property: a string, or an atom as `#` and its number.
pub open spec fn prop_text(m: MemView, p: u64, wide: bool) -> Result<Seq<char>, Fault> {
    if p <= 0xFFFF {
        Ok(seq!['#'] + numeral(p as nat, 10))
    } else if wide {
        wide_text(m, p)
    } else {
        match bytes_from(m, p, 256, 0) {
            Err(f) => Err(f),
            Ok(b) => Ok(utf8_lossy(b)),
        }
    }
}

/// The name of a property.
fn prop_name(mem: &VirtualMemory, p: u64, wide: bool) -> (r: Result<String, Fault>)
    ensures
        match r {
            Ok(s) => prop_text(mem@, p, wide) == Ok::<Seq<char>, Fault>(s@),
            Err(f) => prop_text(mem@, p, wide) == Err::<Seq<char>, Fault>(f),
        },
{
    if p <= 0xFFFF {
        let mut out: Vec<char> = vec!['#'];
        let mut digits = numeral_chars(p, 10);
        out.append(&mut digits);
        assert(out@ =~= seq!['#'] + numeral(p as nat, 10));
        return Ok(string_of(&out));
    }
    if wide {
        return read_wstr(mem, p);
    }
    match read_cstr(mem, p, 256) {
        Ok(b) => Ok(decode_utf8_lossy(&b)),
        Err(f) => Err(f),
    }
}

/// The property of a window, 0 where there is none.
pub open spec fn prop_of(g: GdiView, h: u64, name: Seq<char>) -> u64 {
    if g.windows.contains_key(h) && g.windows[h].props.contains_key(name) {
        g.windows[h].props[name]
    } else {
        0
    }
}

/// `SetProp`: whether there is such a window.
#[verifier::opaque]
pub open spec fn set_prop_out(
    g: GdiView,
    is_64bit: bool,
    c: CpuView,
    m: MemView,
    wide: bool,
) -> WinOut {
    match args_at(is_64bit, c, m, seq![0, 1]) {
        Err(f) => same(g, faulted(m, f)),
        Ok(a) => match prop_text(m, a[1], wide) {
            Err(f) => same(g, faulted(m, f)),
            Ok(name) => match args_at(is_64bit, c, m, seq![2]) {
                Err(f) => same(g, faulted(m, f)),
                Ok(b) => if g.windows.contains_key(a[0]) {
                    let w = g.windows[a[0]];
                    WinOut {
                        gdi: g.with_window(
                            a[0],
                            WindowView { props: w.props.insert(name, b[0]), ..w },
                        ),
                        reply: answer(m, 1),
                    }
                } else {
                    same(g, answer(m, 0))
                },
            },
        },
    }
}

/// `GetProp`.
#[verifier::opaque]
pub open spec fn get_prop_reply(
    g: GdiView,
    is_64bit: bool,
    c: CpuView,
    m: MemView,
    wide: bool,
) -> Reply {
    match args_at(is_64bit, c, m, seq![0, 1]) {
        Err(f) => faulted(m, f),
        Ok(a) => match prop_text(m, a[1], wide) {
            Err(f) => faulted(m, f),
            Ok(name) => answer(m, prop_of(g, a[0], name)),
        },
    }
}

/// `RemoveProp`: the property as it was.
#[verifier::opaque]
pub open spec fn remove_prop_out(
    g: GdiView,
    is_64bit: bool,
    c: CpuView,
    m: MemView,
    wide: bool,
) -> WinOut {
    match args_at(is_64bit, c, m, seq![0, 1]) {
        Err(f) => same(g, faulted(m, f)),
        Ok(a) => match prop_text(m, a[1], wide) {
            Err(f) => same(g, faulted(m, f)),
            Ok(name) => WinOut {
                gdi: if g.windows.contains_key(a[0]) {
                    let w = g.windows[a[0]];
                    g.with_window(a[0], WindowView { props: w.props.remove(name), ..w })
                } else {
                    g
                },
                reply: answer(m, prop_of(g, a[0], name)),
            },
        },
    }
}

/// A property that was set is read back; a removed one is gone; others stay.
pub proof fn lemma_props(g: GdiView, h: u64, name: Seq<char>, v: u64, other: Seq<char>)
    requires
        g.windows.contains_key(h),
    ensures
        ({
            let w = g.windows[h];
            let set = g.with_window(h, WindowView { props: w.props.insert(name, v), ..w });
            let gone = g.with_window(h, WindowView { props: w.props.remove(name), ..w });
            &&& prop_of(set, h, name) == v
            &&& prop_of(gone, h, name) == 0
            &&& other != name ==> prop_of(set, h, other) == prop_of(g, h, other)
            &&& other != name ==> prop_of(gone, h, other) == prop_of(g, h, other)
        }),
{
}

// ---- geometry ---------------------------------------------------------------

/// Two coordinates packed into the halves of a message parameter.
pub open spec fn packed(x: i32, y: i32) -> u64 {
    (x as u32 % 0x1_0000 + y as u32 % 0x1_0000 * 0x1_0000) as u64
}

/// Two coordinates packed into the halves of a message parameter.
pub fn pack(x: i32, y: i32) -> (r: u64)
    ensures
        r == packed(x, y),
{
    (x as u32 % 0x1_0000) as u64 + (y as u32 % 0x1_0000) as u64 * 0x1_0000
}

/// What a new rectangle of a window leads to: the window, and the messages that
/// tell it what changed.
pub open spec fn placed(g: GdiView, h: u64, r: Rect, repaint: bool) -> (GdiView, Seq<PostedMsg>, u64) {
    if !g.windows.contains_key(h) {
        (g, Seq::empty(), 0)
    } else {
        let w = g.windows[h];
        let moved = w.rect.a != r.a || w.rect.b != r.b;
        let sized = w.rect.c != r.c || w.rect.d != r.d;
        let move_msg = PostedMsg { hwnd: h, message: WM_MOVE, wparam: 0, lparam: packed(r.a, r.b) };
        let size_msg = PostedMsg { hwnd: h, message: WM_SIZE, wparam: 0, lparam: packed(r.c, r.d) };
        (
            g.with_window(
                h,
                if repaint {
                    WindowView {
                        rect: r,
                        paint_pending: true,
                        update_rect: Rect { a: 0, b: 0, c: r.c, d: r.d },
                        ..w
                    }
                } else {
                    WindowView { rect: r, ..w }
                },
            ),
            (if moved {
                seq![move_msg]
            } else {
                Seq::empty()
            }) + (if sized {
                seq![size_msg]
            } else {
                Seq::empty()
            }),
            1,
        )
    }
}

/// The rectangle and the repaint flag that `MoveWindow` asks for.
#[verifier::opaque]
pub open spec fn move_args(is_64bit: bool, c: CpuView, m: MemView) -> Result<
    (u64, Rect, bool),
    Fault,
> {
    match args_at(is_64bit, c, m, seq![0, 1, 2, 3, 4, 5]) {
        Err(f) => Err(f),
        Ok(a) => Ok(
            (
                a[0],
                Rect { a: a[1] as i32, b: a[2] as i32, c: a[3] as i32, d: a[4] as i32 },
                a[5] != 0,
            ),
        ),
    }
}

/// The rectangle that `SetWindowPos` asks for: its flags keep the size (1) or the
/// position (2).
#[verifier::opaque]
pub open spec fn pos_args(g: GdiView, is_64bit: bool, c: CpuView, m: MemView) -> Result<
    (u64, Rect, bool),
    Fault,
> {
    match args_at(is_64bit, c, m, seq![0, 2, 3, 4, 5, 6]) {
        Err(f) => Err(f),
        Ok(a) => {
            let cur = g.rect_of(a[0]);
            let keep_pos = a[5] / 2 % 2 == 1;
            let keep_size = a[5] % 2 == 1;
            Ok(
                (
                    a[0],
                    Rect {
                        a: if keep_pos {
                            cur.a
                        } else {
                            a[1] as i32
                        },
                        b: if keep_pos {
                            cur.b
                        } else {
                            a[2] as i32
                        },
                        c: if keep_size {
                            cur.c
                        } else {
                            a[3] as i32
                        },
                        d: if keep_size {
                            cur.d
                        } else {
                            a[4] as i32
                        },
                    },
                    true,
                ),
            )
        },
    }
}

// ---- calls ------------------------------------------------------------------

impl Gdi {
    /// Replace a window.
    fn put_window(&mut self, h: u64, w: Window)
        ensures
            final(self)@ == old(self)@.with_window(h, w@),
    {
        let ghost g = self@;
        let ghost wv = w@;
        let _prev = self.windows.insert(h, w);
        assert(self@.windows =~= g.windows.insert(h, wv));
    }

    /// Take a window out, to put it back changed.
    fn take_window(&mut self, h: u64) -> (r: Option<Window>)
        ensures
            match r {
                Some(w) => old(self)@.windows.contains_key(h) && w@ == old(self)@.windows[h]
                    && final(self)@ == (GdiView {
                    windows: old(self)@.windows.remove(h),
                    ..old(self)@
                }),
                None => !old(self)@.windows.contains_key(h) && final(self)@ == old(self)@,
            },
    {
        let ghost g = self@;
        let ghost m = self.windows@;
        let r = self.windows.remove(&h);
        proof {
            if r is Some {
                assert(self@.windows =~= g.windows.remove(h));
            } else {
                assert(self.windows@ =~= m);
            }
        }
        r
    }

    /// `GetWindowLong` and `SetWindowLong`.
    pub fn window_long(&mut self, is_64bit: bool, cpu: &CpuState, mem: &VirtualMemory, set: bool) -> (r:
        Result<u64, Fault>)
        ensures
            final(self)@ == long_out(old(self)@, is_64bit, cpu@, mem@, set).gdi,
            r == long_out(old(self)@, is_64bit, cpu@, mem@, set).reply.r,
            long_out(old(self)@, is_64bit, cpu@, mem@, set).reply.mem == mem@,
    {
        proof {
            reveal(long_out);
        }
        let list: Vec<u64> = if set {
            vec![0, 1, 2]
        } else {
            vec![0, 1]
        };
        assert(list@ =~= long_args(set));
        let a = match args(is_64bit, cpu, mem, &list) {
            Ok(v) => v,
            Err(f) => {
                return Err(f);
            },
        };
        let ghost g = self@;
        let h: u64 = a[0];
        let index: u32 = a[1] as u32;
        let mut w = match self.take_window(h) {
            Some(w) => w,
            None => {
                return Ok(0);
            },
        };
        let ghost wv = w@;
        let old: u64 = if index == GWL_WNDPROC {
            w.wndproc
        } else if index == GWL_USERDATA {
            w.userdata
        } else if index == GWL_STYLE {
            w.style as u64
        } else if index == GWL_EXSTYLE {
            w.ex_style as u64
        } else if index == GWL_HWNDPARENT {
            w.parent
        } else {
            match w.longs.get(&index) {
                Some(v) => *v,
                None => 0,
            }
        };
        if set {
            let v: u64 = a[2];
            if index == GWL_WNDPROC {
                w.wndproc = v;
            } else if index == GWL_USERDATA {
                w.userdata = v;
            } else if index == GWL_STYLE {
                w.style = v as u32;
            } else if index == GWL_EXSTYLE {
                w.ex_style = v as u32;
            } else if index == GWL_HWNDPARENT {
                w.parent = v;
            } else {
                let _prev = w.longs.insert(index, v);
            }
        }
        let ghost xv = w@;
        self.put_window(h, w);
        proof {
            if set {
                assert(xv =~= wv.with_word(index, a@[2]));
                assert(self@ =~= g.with_window(h, xv));
            } else {
                assert(self@.windows =~= g.windows);
                assert(self@ =~= g);
            }
        }
        Ok(old)
    }

    /// `GetClassName`.
    pub fn get_class_name(
        &self,
        is_64bit: bool,
        cpu: &CpuState,
        mem: &mut VirtualMemory,
        wide: bool,
    ) -> (r: Result<u64, Fault>)
        ensures
            final(mem)@ == class_reply(self@, is_64bit, cpu@, old(mem)@, wide).mem,
            r == class_reply(self@, is_64bit, cpu@, old(mem)@, wide).r,
    {
        proof {
            reveal(class_reply);
        }
        let list: Vec<u64> = vec![0, 1, 2];
        assert(list@ =~= seq![0u64, 1, 2]);
        let a = match args(is_64bit, cpu, mem, &list) {
            Ok(v) => v,
            Err(f) => {
                return Err(f);
            },
        };
        let name = match self.windows.get(&a[0]) {
            Some(w) => w.class.clone(),
            None => {
                let s = String::new();
                assert(s@ =~= Seq::<char>::empty());
                s
            },
        };
        if wide {
            write_wstr(mem, a[1], name.as_str(), a[2])
        } else {
            write_astr(mem, a[1], name.as_str(), a[2])
        }
    }

    /// `IsWindow`.
    pub fn is_window(&self, is_64bit: bool, cpu: &CpuState, mem: &VirtualMemory) -> (r: Result<
        u64,
        Fault,
    >)
        ensures
            r == (match args_at(is_64bit, cpu@, mem@, seq![0]) {
                Err(f) => Err::<u64, Fault>(f),
                Ok(a) => Ok::<u64, Fault>(
                    if self@.windows.contains_key(a[0]) {
                        1
                    } else {
                        0
                    },
                ),
            }),
    {
        let list: Vec<u64> = vec![0];
        assert(list@ =~= seq![0u64]);
        match args(is_64bit, cpu, mem, &list) {
            Ok(a) => if self.windows.contains_key(&a[0]) {
                Ok(1)
            } else {
                Ok(0)
            },
            Err(f) => Err(f),
        }
    }

    /// `GetClientRect`.
    pub fn get_client_rect_win(&self, is_64bit: bool, cpu: &CpuState, mem: &mut VirtualMemory) -> (r:
        Result<u64, Fault>)
        ensures
            final(mem)@ == client_reply(self@, is_64bit, cpu@, old(mem)@).mem,
            r == client_reply(self@, is_64bit, cpu@, old(mem)@).r,
    {
        proof {
            reveal(client_reply);
        }
        let list: Vec<u64> = vec![0, 1];
        assert(list@ =~= seq![0u64, 1]);
        let a = match args(is_64bit, cpu, mem, &list) {
            Ok(v) => v,
            Err(f) => {
                return Err(f);
            },
        };
        let r = self.rect_of(a[0]);
        let t = quad_stores(a[1], 0, 0, r.c as u32, r.d as u32);
        finish(mem, &t, 1)
    }

    /// `GetWindowRect`.
    pub fn get_window_rect(&self, is_64bit: bool, cpu: &CpuState, mem: &mut VirtualMemory) -> (r:
        Result<u64, Fault>)
        ensures
            final(mem)@ == rect_reply(self@, is_64bit, cpu@, old(mem)@).mem,
            r == rect_reply(self@, is_64bit, cpu@, old(mem)@).r,
    {
        proof {
            reveal(rect_reply);
        }
        let list: Vec<u64> = vec![0, 1];
        assert(list@ =~= seq![0u64, 1]);
        let a = match args(is_64bit, cpu, mem, &list) {
            Ok(v) => v,
            Err(f) => {
                return Err(f);
            },
        };
        let r = self.rect_of(a[0]);
        let right: u32 = (r.a as u32).wrapping_add(r.c as u32);
        let bottom: u32 = (r.b as u32).wrapping_add(r.d as u32);
        assert(right == shifted(r.a, r.c) && bottom == shifted(r.b, r.d));
        let t = quad_stores(a[1], r.a as u32, r.b as u32, right, bottom);
        finish(mem, &t, 1)
    }

    /// `ShowWindow`.
    pub fn show_window(&mut self, is_64bit: bool, cpu: &CpuState, mem: &VirtualMemory) -> (r: Result<
        u64,
        Fault,
    >)
        ensures
            final(self)@ == show_out(old(self)@, is_64bit, cpu@, mem@).gdi,
            r == show_out(old(self)@, is_64bit, cpu@, mem@).reply.r,
            show_out(old(self)@, is_64bit, cpu@, mem@).reply.mem == mem@,
    {
        proof {
            reveal(show_out);
        }
        let list: Vec<u64> = vec![0, 1];
        assert(list@ =~= seq![0u64, 1]);
        let a = match args(is_64bit, cpu, mem, &list) {
            Ok(v) => v,
            Err(f) => {
                return Err(f);
            },
        };
        let ghost g = self@;
        match self.take_window(a[0]) {
            Some(mut w) => {
                let was: bool = w.visible;
                w.visible = a[1] != 0;
                let ghost wv = w@;
                self.put_window(a[0], w);
                assert(self@ =~= g.with_window(a@[0], wv));
                if was {
                    Ok(1)
                } else {
                    Ok(0)
                }
            },
            None => Ok(0),
        }
    }

    /// `SetProp`.
    pub fn set_prop(&mut self, is_64bit: bool, cpu: &CpuState, mem: &VirtualMemory, wide: bool) -> (r:
        Result<u64, Fault>)
        ensures
            final(self)@ == set_prop_out(old(self)@, is_64bit, cpu@, mem@, wide).gdi,
            r == set_prop_out(old(self)@, is_64bit, cpu@, mem@, wide).reply.r,
            set_prop_out(old(self)@, is_64bit, cpu@, mem@, wide).reply.mem == mem@,
    {
        proof {
            reveal(set_prop_out);
        }
        let list: Vec<u64> = vec![0, 1];
        assert(list@ =~= seq![0u64, 1]);
        let a = match args(is_64bit, cpu, mem, &list) {
            Ok(v) => v,
            Err(f) => {
                return Err(f);
            },
        };
        let name = match prop_name(mem, a[1], wide) {
            Ok(s) => s,
            Err(f) => {
                return Err(f);
            },
        };
        let list: Vec<u64> = vec![2];
        assert(list@ =~= seq![2u64]);
        let b = match args(is_64bit, cpu, mem, &list) {
            Ok(v) => v,
            Err(f) => {
                return Err(f);
            },
        };
        let ghost g = self@;
        match self.take_window(a[0]) {
            Some(mut w) => {
                let _prev = w.props.insert(name, b[0]);
                let ghost wv = w@;
                self.put_window(a[0], w);
                assert(self@ =~= g.with_window(a@[0], wv));
                Ok(1)
            },
            None => Ok(0),
        }
    }

    /// `GetProp`.
    pub fn get_prop(&self, is_64bit: bool, cpu: &CpuState, mem: &VirtualMemory, wide: bool) -> (r:
        Result<u64, Fault>)
        ensures
            r == get_prop_reply(self@, is_64bit, cpu@, mem@, wide).r,
            get_prop_reply(self@, is_64bit, cpu@, mem@, wide).mem == mem@,
    {
        proof {
            reveal(get_prop_reply);
        }
        let list: Vec<u64> = vec![0, 1];
        assert(list@ =~= seq![0u64, 1]);
        let a = match args(is_64bit, cpu, mem, &list) {
            Ok(v) => v,
            Err(f) => {
                return Err(f);
            },
        };
        let name = match prop_name(mem, a[1], wide) {
            Ok(s) => s,
            Err(f) => {
                return Err(f);
            },
        };
        match self.windows.get(&a[0]) {
            Some(w) => match w.props.get(name.as_str()) {
                Some(v) => Ok(*v),
                None => Ok(0),
            },
            None => Ok(0),
        }
    }

    /// `RemoveProp`.
    pub fn remove_prop(&mut self, is_64bit: bool, cpu: &CpuState, mem: &VirtualMemory, wide: bool) -> (r:
        Result<u64, Fault>)
        ensures
            final(self)@ == remove_prop_out(old(self)@, is_64bit, cpu@, mem@, wide).gdi,
            r == remove_prop_out(old(self)@, is_64bit, cpu@, mem@, wide).reply.r,
            remove_prop_out(old(self)@, is_64bit, cpu@, mem@, wide).reply.mem == mem@,
    {
        proof {
            reveal(remove_prop_out);
        }
        let list: Vec<u64> = vec![0, 1];
        assert(list@ =~= seq![0u64, 1]);
        let a = match args(is_64bit, cpu, mem, &list) {
            Ok(v) => v,
            Err(f) => {
                return Err(f);
            },
        };
        let name = match prop_name(mem, a[1], wide) {
            Ok(s) => s,
            Err(f) => {
                return Err(f);
            },
        };
        let ghost g = self@;
        match self.take_window(a[0]) {
            Some(mut w) => {
                let prev = w.props.remove(name.as_str());
                let ghost wv = w@;
                self.put_window(a[0], w);
                assert(self@ =~= g.with_window(a@[0], wv));
                match prev {
                    Some(v) => Ok(v),
                    None => Ok(0),
                }
            },
            None => Ok(0),
        }
    }

    /// `SetFocus`: the window that had the focus.
    pub fn set_focus(&mut self, is_64bit: bool, cpu: &CpuState, mem: &VirtualMemory) -> (r: Result<
        u64,
        Fault,
    >)
        ensures
            match args_at(is_64bit, cpu@, mem@, seq![0]) {
                Err(f) => r == Err::<u64, Fault>(f) && final(self)@ == old(self)@,
                Ok(a) => r == Ok::<u64, Fault>(old(self)@.focus_hwnd) && final(self)@ == (GdiView {
                    focus_hwnd: a[0],
                    ..old(self)@
                }),
            },
    {
        let list: Vec<u64> = vec![0];
        assert(list@ =~= seq![0u64]);
        match args(is_64bit, cpu, mem, &list) {
            Ok(a) => {
                let prev: u64 = self.focus_hwnd;
                self.focus_hwnd = a[0];
                Ok(prev)
            },
            Err(f) => Err(f),
        }
    }

    /// `GetFocus`.
    pub fn get_focus(&self) -> (r: u64)
        ensures
            r == self@.focus_hwnd,
    {
        self.focus_hwnd
    }

    /// `SetCapture`: the window that had captured the mouse.
    pub fn set_capture(&mut self, is_64bit: bool, cpu: &CpuState, mem: &VirtualMemory) -> (r: Result<
        u64,
        Fault,
    >)
        ensures
            match args_at(is_64bit, cpu@, mem@, seq![0]) {
                Err(f) => r == Err::<u64, Fault>(f) && final(self)@ == old(self)@,
                Ok(a) => r == Ok::<u64, Fault>(old(self)@.capture_hwnd) && final(self)@ == (
                GdiView { capture_hwnd: a[0], ..old(self)@ }),
            },
    {
        let list: Vec<u64> = vec![0];
        assert(list@ =~= seq![0u64]);
        match args(is_64bit, cpu, mem, &list) {
            Ok(a) => {
                let prev: u64 = self.capture_hwnd;
                self.capture_hwnd = a[0];
                Ok(prev)
            },
            Err(f) => Err(f),
        }
    }

    /// `GetCapture`.
    pub fn get_capture(&self) -> (r: u64)
        ensures
            r == self@.capture_hwnd,
    {
        self.capture_hwnd
    }

    /// `ReleaseCapture`.
    pub fn release_capture(&mut self) -> (r: u64)
        ensures
            r == 1,
            final(self)@ == (GdiView { capture_hwnd: 0, ..old(self)@ }),
    {
        self.capture_hwnd = 0;
        1
    }

    /// `GetKeyState`: no key is down.
    pub fn get_key_state(&self, is_64bit: bool, cpu: &CpuState, mem: &VirtualMemory) -> (r: Result<
        u64,
        Fault,
    >)
        ensures
            r == (match args_at(is_64bit, cpu@, mem@, seq![0]) {
                Err(f) => Err::<u64, Fault>(f),
                Ok(_) => Ok::<u64, Fault>(0),
            }),
    {
        let list: Vec<u64> = vec![0];
        assert(list@ =~= seq![0u64]);
        match args(is_64bit, cpu, mem, &list) {
            Ok(_) => Ok(0),
            Err(f) => Err(f),
        }
    }

    /// `GetCursorPos`: the pointer is at the origin.
    pub fn get_cursor_pos(&self, is_64bit: bool, cpu: &CpuState, mem: &mut VirtualMemory) -> (r:
        Result<u64, Fault>)
        ensures
            ({
                let o = match args_at(is_64bit, cpu@, old(mem)@, seq![0]) {
                    Err(f) => faulted(old(mem)@, f),
                    Ok(a) => answer_stores(
                        old(mem)@,
                        if a[0] == 0 {
                            Seq::empty()
                        } else {
                            seq![s32(a[0], 0), s32(ga(a[0], 4), 0)]
                        },
                        1,
                    ),
                };
                final(mem)@ == o.mem && r == o.r
            }),
    {
        let list: Vec<u64> = vec![0];
        assert(list@ =~= seq![0u64]);
        let a = match args(is_64bit, cpu, mem, &list) {
            Ok(v) => v,
            Err(f) => {
                return Err(f);
            },
        };
        let t: Vec<Store> = if a[0] == 0 {
            let none: Vec<Store> = Vec::new();
            assert(none@ =~= Seq::empty());
            none
        } else {
            let two: Vec<Store> = vec![store32(a[0], 0), store32(at(a[0], 4), 0)];
            assert(two@ =~= seq![s32(a[0], 0), s32(ga(a[0], 4), 0)]);
            two
        };
        finish(mem, &t, 1)
    }

    /// The window, rectangle and repaint flag that `MoveWindow` asks for.
    pub fn move_window(&self, is_64bit: bool, cpu: &CpuState, mem: &VirtualMemory) -> (r: Result<
        (u64, Rect, bool),
        Fault,
    >)
        ensures
            r == move_args(is_64bit, cpu@, mem@),
    {
        proof {
            reveal(move_args);
        }
        let list: Vec<u64> = vec![0, 1, 2, 3, 4, 5];
        assert(list@ =~= seq![0u64, 1, 2, 3, 4, 5]);
        match args(is_64bit, cpu, mem, &list) {
            Ok(a) => Ok(
                (
                    a[0],
                    Rect { a: a[1] as i32, b: a[2] as i32, c: a[3] as i32, d: a[4] as i32 },
                    a[5] != 0,
                ),
            ),
            Err(f) => Err(f),
        }
    }

    /// The window, rectangle and repaint flag that `SetWindowPos` asks for.
    pub fn set_window_pos(&self, is_64bit: bool, cpu: &CpuState, mem: &VirtualMemory) -> (r: Result<
        (u64, Rect, bool),
        Fault,
    >)
        ensures
            r == pos_args(self@, is_64bit, cpu@, mem@),
    {
        proof {
            reveal(pos_args);
        }
        let list: Vec<u64> = vec![0, 2, 3, 4, 5, 6];
        assert(list@ =~= seq![0u64, 2, 3, 4, 5, 6]);
        let a = match args(is_64bit, cpu, mem, &list) {
            Ok(a) => a,
            Err(f) => {
                return Err(f);
            },
        };
        let cur: Rect = self.rect_of(a[0]);
        let keep_pos: bool = a[5] / 2 % 2 == 1;
        let keep_size: bool = a[5] % 2 == 1;
        Ok(
            (
                a[0],
                Rect {
                    a: if keep_pos {
                        cur.a
                    } else {
                        a[1] as i32
                    },
                    b: if keep_pos {
                        cur.b
                    } else {
                        a[2] as i32
                    },
                    c: if keep_size {
                        cur.c
                    } else {
                        a[3] as i32
                    },
                    d: if keep_size {
                        cur.d
                    } else {
                        a[4] as i32
                    },
                },
                true,
            ),
        )
    }

    /// Give a window a new rectangle; the messages that tell it what changed.
    pub fn reposition(&mut self, h: u64, r: Rect, repaint: bool) -> (o: (Vec<PostedMsg>, u64))
        ensures
            (final(self)@, o.0@, o.1) == placed(old(self)@, h, r, repaint),
    {
        let ghost g = self@;
        let mut out: Vec<PostedMsg> = Vec::new();
        match self.take_window(h) {
            Some(mut w) => {
                let moved: bool = w.rect.a != r.a || w.rect.b != r.b;
                let sized: bool = w.rect.c != r.c || w.rect.d != r.d;
                w.rect = r;
                if repaint {
                    w.paint_pending = true;
                    w.update_rect = Rect { a: 0, b: 0, c: r.c, d: r.d };
                }
                let ghost wv = w@;
                self.put_window(h, w);
                assert(self@ =~= g.with_window(h, wv));
                if moved {
                    out.push(
                        PostedMsg { hwnd: h, message: WM_MOVE, wparam: 0, lparam: pack(r.a, r.b) },
                    );
                }
                if sized {
                    out.push(
                        PostedMsg { hwnd: h, message: WM_SIZE, wparam: 0, lparam: pack(r.c, r.d) },
                    );
                }
                assert(out@ =~= placed(g, h, r, repaint).1);
                (out, 1)
            },
            None => {
                assert(out@ =~= Seq::empty());
                (out, 0)
            },
        }
    }
}

} // verus!
