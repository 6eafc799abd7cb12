//! Windows, device contexts and drawing.

use vstd::prelude::*;

use std::collections::HashMap;

use vstd::utf8::encode_utf8;

use crate::call::{answer, answer_stores, faulted, follow, Reply};
use crate::gstr::{
    byte_table, narrow_write, read_wstr, read_wstr_units, units_at, wide_text, wide_write,
    write_astr, write_wstr,
};
use crate::mem::{
    at, ga, s32, s64, s8, store32, store64, store8, Fault, MemView, Store, VirtualMemory,
};
use crate::ntreg::finish;
use crate::text::{decode_utf16_lossy, utf16, utf16_lossy};
use crate::ui::{DrawOp, Effect, EffectView, Ui, UiView};
use crate::util::StrMap;

verus! {

broadcast use vstd::std_specs::hash::group_hash_axioms;

/// The first window handle.
pub const HWND_CUSTOM: u64 = 0x00C1_0000;

/// The device context.
pub const HDC_HANDLE: u64 = 0x00DC_0001;

/// The first handle of a drawing object.
pub const FIRST_OBJECT: u64 = 0x00E0_0000;

/// A handle that stands for nothing.
pub const FAKE_HANDLE: u64 = 0x00CA_FE00;

pub const WM_CREATE: u64 = 0x0001;

pub const WM_DESTROY: u64 = 0x0002;

pub const WM_PAINT: u64 = 0x000F;

pub const WM_CLOSE: u64 = 0x0010;

pub const WM_LBUTTONDOWN: u64 = 0x0201;

/// A rectangle, or a position and a size.
#[derive(Clone, Copy, Debug, PartialEq, Eq, Structural)]
pub struct Rect {
    pub a: i32,
    pub b: i32,
    pub c: i32,
    pub d: i32,
}

/// A window.
pub struct Window {
    pub class: String,
    pub wndproc: u64,
    pub style: u32,
    pub ex_style: u32,
    /// Position and size.
    pub rect: Rect,
    pub parent: u64,
    pub title: Vec<u16>,
    pub userdata: u64,
    /// Extra words by offset.
    pub longs: HashMap<u32, u64>,
    /// Properties by name.
    pub props: StrMap<u64>,
    pub visible: bool,
    /// Whether the window has to be painted.
    pub paint_pending: bool,
    /// What has to be painted: left, top, right, bottom.
    pub update_rect: Rect,
}

/// A window as mathematics.
#[verifier::ext_equal]
pub struct WindowView {
    pub class: Seq<char>,
    pub wndproc: u64,
    pub style: u32,
    pub ex_style: u32,
    pub rect: Rect,
    pub parent: u64,
    pub title: Seq<u16>,
    pub userdata: u64,
    pub longs: Map<u32, u64>,
    pub props: Map<Seq<char>, u64>,
    pub visible: bool,
    pub paint_pending: bool,
    pub update_rect: Rect,
}

impl View for Window {
    type V = WindowView;

    open spec fn view(&self) -> WindowView {
        WindowView {
            class: self.class@,
            wndproc: self.wndproc,
            style: self.style,
            ex_style: self.ex_style,
            rect: self.rect,
            parent: self.parent,
            title: self.title@,
            userdata: self.userdata,
            longs: self.longs@,
            props: self.props@,
            visible: self.visible,
            paint_pending: self.paint_pending,
            update_rect: self.update_rect,
        }
    }
}

/// A drawing object.
pub enum GdiObject {
    Pen(u32),
    Brush(u32),
    Font { height: i32, weight: i32, italic: bool, face: String },
}

/// A drawing object as mathematics.
pub enum ObjectView {
    Pen(u32),
    Brush(u32),
    Font { height: i32, weight: i32, italic: bool, face: Seq<char> },
}

impl View for GdiObject {
    type V = ObjectView;

    open spec fn view(&self) -> ObjectView {
        match *self {
            GdiObject::Pen(c) => ObjectView::Pen(c),
            GdiObject::Brush(c) => ObjectView::Brush(c),
            GdiObject::Font { height, weight, italic, face } => ObjectView::Font {
                height,
                weight,
                italic,
                face: face@,
            },
        }
    }
}

/// What a device context holds.
#[derive(Clone, Copy, Debug, PartialEq, Eq, Structural)]
pub struct Dc {
    pub text_color: u32,
    pub pen_color: u32,
    pub brush_color: u32,
    pub bk_color: u32,
    pub bk_mode: u32,
    pub x: i32,
    pub y: i32,
    /// The selected objects.
    pub pen: u64,
    pub brush: u64,
    pub font: u64,
}

/// Windows and drawing state.
pub struct Gdi {
    /// Whether a window of the guest's own is shown.
    pub active: bool,
    pub wndproc: u64,
    pub classes: StrMap<u64>,
    pub paint_pending: bool,
    pub windows: HashMap<u64, Window>,
    pub next_hwnd: u64,
    pub active_hwnd: u64,
    pub focus_hwnd: u64,
    pub capture_hwnd: u64,
    pub objects: HashMap<u64, GdiObject>,
    pub next_object: u64,
    pub dc: Dc,
    /// The saved device contexts.
    pub saved: Vec<Dc>,
}

/// Windows and drawing state as mathematics.
#[verifier::ext_equal]
pub struct GdiView {
    pub active: bool,
    pub wndproc: u64,
    pub classes: Map<Seq<char>, u64>,
    pub paint_pending: bool,
    pub windows: Map<u64, WindowView>,
    pub next_hwnd: u64,
    pub active_hwnd: u64,
    pub focus_hwnd: u64,
    pub capture_hwnd: u64,
    pub objects: Map<u64, ObjectView>,
    pub next_object: u64,
    pub dc: Dc,
    pub saved: Seq<Dc>,
}

/// The views of windows.
pub open spec fn window_views(m: Map<u64, Window>) -> Map<u64, WindowView> {
    Map::new(|h: u64| m.contains_key(h), |h: u64| m[h]@)
}

/// The views of drawing objects.
pub open spec fn object_views(m: Map<u64, GdiObject>) -> Map<u64, ObjectView> {
    Map::new(|h: u64| m.contains_key(h), |h: u64| m[h]@)
}

impl View for Gdi {
    type V = GdiView;

    open spec fn view(&self) -> GdiView {
        GdiView {
            active: self.active,
            wndproc: self.wndproc,
            classes: self.classes@,
            paint_pending: self.paint_pending,
            windows: window_views(self.windows@),
            next_hwnd: self.next_hwnd,
            active_hwnd: self.active_hwnd,
            focus_hwnd: self.focus_hwnd,
            capture_hwnd: self.capture_hwnd,
            objects: object_views(self.objects@),
            next_object: self.next_object,
            dc: self.dc,
            saved: self.saved@,
        }
    }
}

impl GdiView {
    /// No window and no drawing object.
    pub open spec fn initial() -> GdiView {
        GdiView {
            active: false,
            wndproc: 0,
            classes: Map::empty(),
            paint_pending: false,
            windows: Map::empty(),
            next_hwnd: HWND_CUSTOM,
            active_hwnd: 0,
            focus_hwnd: 0,
            capture_hwnd: 0,
            objects: Map::empty(),
            next_object: FIRST_OBJECT,
            dc: Dc {
                text_color: 0,
                pen_color: 0,
                brush_color: 0,
                bk_color: 0,
                bk_mode: 0,
                x: 0,
                y: 0,
                pen: 0,
                brush: 0,
                font: 0,
            },
            saved: Seq::empty(),
        }
    }
}

/// The whole client area of a window without one: 640 by 480.
pub open spec fn default_rect() -> Rect {
    Rect { a: 0, b: 0, c: 640, d: 480 }
}

impl GdiView {
    /// With a window replaced.
    pub open spec fn with_window(self, h: u64, w: WindowView) -> GdiView {
        GdiView { windows: self.windows.insert(h, w), ..self }
    }

    /// With one more drawing object.
    pub open spec fn with_object(self, o: ObjectView) -> GdiView {
        GdiView {
            objects: self.objects.insert(self.next_object, o),
            next_object: (self.next_object + 8) as u64,
            ..self
        }
    }

    /// The position and size of a window.
    pub open spec fn rect_of(self, h: u64) -> Rect {
        if self.windows.contains_key(h) {
            self.windows[h].rect
        } else {
            default_rect()
        }
    }

    /// The client size of a window; for another handle that of the backend.
    pub open spec fn client_of(self, h: u64, client: Option<(i32, i32)>) -> (i32, i32) {
        if self.windows.contains_key(h) {
            (self.windows[h].rect.c, self.windows[h].rect.d)
        } else {
            match client {
                Some(s) => s,
                None => (640, 480),
            }
        }
    }

    /// Whether a window has to be painted, and which part.
    pub open spec fn update_of(self, h: u64, client: Option<(i32, i32)>) -> (bool, Rect) {
        if self.windows.contains_key(h) {
            (self.windows[h].paint_pending, self.windows[h].update_rect)
        } else {
            let s = self.client_of(h, client);
            (self.paint_pending, Rect { a: 0, b: 0, c: s.0, d: s.1 })
        }
    }

    /// With a window that owes no paint.
    pub open spec fn painted(self, h: u64) -> GdiView {
        let g = GdiView { paint_pending: false, ..self };
        if self.windows.contains_key(h) {
            g.with_window(
                h,
                WindowView {
                    paint_pending: false,
                    update_rect: Rect { a: 0, b: 0, c: 0, d: 0 },
                    ..self.windows[h]
                },
            )
        } else {
            g
        }
    }

    /// With a part of a window to be painted, besides what already is.
    pub open spec fn invalidated(self, h: u64, r: Rect) -> GdiView {
        if self.windows.contains_key(h) {
            let w = self.windows[h];
            self.with_window(
                h,
                WindowView {
                    paint_pending: true,
                    update_rect: if w.paint_pending {
                        spec_union(w.update_rect, r)
                    } else {
                        r
                    },
                    ..w
                },
            )
        } else {
            GdiView { paint_pending: true, ..self }
        }
    }

    /// With an object selected, and what was selected in its place before.
    pub open spec fn selected(self, obj: u64) -> (GdiView, u64) {
        if !self.objects.contains_key(obj) {
            (self, 0)
        } else {
            match self.objects[obj] {
                ObjectView::Pen(c) => (
                    GdiView { dc: Dc { pen: obj, pen_color: c, ..self.dc }, ..self },
                    self.dc.pen,
                ),
                ObjectView::Brush(c) => (
                    GdiView { dc: Dc { brush: obj, brush_color: c, ..self.dc }, ..self },
                    self.dc.brush,
                ),
                ObjectView::Font { .. } => (
                    GdiView { dc: Dc { font: obj, ..self.dc }, ..self },
                    self.dc.font,
                ),
            }
        }
    }

    /// The saved context that a level stands for; a negative one counts from the
    /// top.
    pub open spec fn level(self, level: i64) -> int {
        if level < 0 {
            self.saved.len() + level
        } else {
            level - 1
        }
    }

    /// With a saved context restored, and whether there was one.
    pub open spec fn restored(self, level: i64) -> (GdiView, u64) {
        let k = self.level(level);
        if k < 0 || k >= self.saved.len() {
            (self, 0)
        } else {
            (GdiView { dc: self.saved[k], saved: self.saved.take(k), ..self }, 1)
        }
    }
}

/// The smallest rectangle around two.
pub open spec fn spec_union(p: Rect, q: Rect) -> Rect {
    Rect {
        a: if p.a < q.a {
            p.a
        } else {
            q.a
        },
        b: if p.b < q.b {
            p.b
        } else {
            q.b
        },
        c: if p.c > q.c {
            p.c
        } else {
            q.c
        },
        d: if p.d > q.d {
            p.d
        } else {
            q.d
        },
    }
}

/// The smallest rectangle around two.
pub fn union_rect(p: Rect, q: Rect) -> (r: Rect)
    ensures
        r == spec_union(p, q),
{
    Rect {
        a: if p.a < q.a {
            p.a
        } else {
            q.a
        },
        b: if p.b < q.b {
            p.b
        } else {
            q.b
        },
        c: if p.c > q.c {
            p.c
        } else {
            q.c
        },
        d: if p.d > q.d {
            p.d
        } else {
            q.d
        },
    }
}

/// A color `0x00BBGGRR` as `0x00RRGGBB`.
pub open spec fn rgb(c: u32) -> u32 {
    ((c % 256) * 65536 + (c / 256 % 256) * 256 + c / 65536 % 256) as u32
}

/// A color `0x00BBGGRR` as `0x00RRGGBB`.
pub fn colorref_to_rgb(c: u32) -> (r: u32)
    ensures
        r == rgb(c),
{
    (c % 256) * 65536 + (c / 256 % 256) * 256 + c / 65536 % 256
}

/// Swapping the color channels twice gives the color back, without what stands above
/// its three channels.
pub proof fn lemma_rgb_involution(c: u32)
    ensures
        rgb(rgb(c)) == c & 0x00FF_FFFF,
{
    let r = c % 256;
    let g = c / 256 % 256;
    let b = c / 65536 % 256;
    let d = rgb(c);
    let low = (c % 0x100_0000) as u32;
    assert(low == c & 0x00FF_FFFF) by (bit_vector)
        requires
            low == c % 0x100_0000,
    ;
    assert(d == r * 65536 + g * 256 + b);
    assert(d % 256 == b);
    assert(d / 256 == r * 256 + g);
    assert(d / 256 % 256 == g);
    assert(d / 65536 == r);
    assert(low == b * 65536 + g * 256 + r);
}

/// The four numbers of a rectangle in guest memory.
pub open spec fn rect_at(m: MemView, p: u64) -> Result<Rect, Fault> {
    match m.r32(p) {
        Err(f) => Err(f),
        Ok(a) => match m.r32(ga(p, 4)) {
            Err(f) => Err(f),
            Ok(b) => match m.r32(ga(p, 8)) {
                Err(f) => Err(f),
                Ok(c) => match m.r32(ga(p, 12)) {
                    Err(f) => Err(f),
                    Ok(d) => Ok(
                        Rect { a: a as i32, b: b as i32, c: c as i32, d: d as i32 },
                    ),
                },
            },
        },
    }
}

/// Read a rectangle.
pub fn read_rect(mem: &VirtualMemory, p: u64) -> (r: Result<Rect, Fault>)
    ensures
        r == rect_at(mem@, p),
{
    let a: u32 = match mem.read_u32(p) {
        Ok(v) => v,
        Err(f) => {
            return Err(f);
        },
    };
    let b: u32 = match mem.read_u32(at(p, 4)) {
        Ok(v) => v,
        Err(f) => {
            return Err(f);
        },
    };
    let c: u32 = match mem.read_u32(at(p, 8)) {
        Ok(v) => v,
        Err(f) => {
            return Err(f);
        },
    };
    let d: u32 = match mem.read_u32(at(p, 12)) {
        Ok(v) => v,
        Err(f) => {
            return Err(f);
        },
    };
    Ok(Rect { a: a as i32, b: b as i32, c: c as i32, d: d as i32 })
}

/// The stores of a rectangle.
pub open spec fn rect_table(p: u64, r: Rect) -> Seq<Store> {
    if p == 0 {
        Seq::empty()
    } else {
        seq![
            s32(p, r.a as u32),
            s32(ga(p, 4), r.b as u32),
            s32(ga(p, 8), r.c as u32),
            s32(ga(p, 12), r.d as u32),
        ]
    }
}

/// The stores of a rectangle.
fn rect_stores(p: u64, r: Rect) -> (t: Vec<Store>)
    ensures
        t@ == rect_table(p, r),
{
    let t: Vec<Store> = if p == 0 {
        Vec::new()
    } else {
        vec![
            store32(p, r.a as u32),
            store32(at(p, 4), r.b as u32),
            store32(at(p, 8), r.c as u32),
            store32(at(p, 12), r.d as u32),
        ]
    };
    assert(t@ =~= rect_table(p, r));
    t
}

// ---- classes and windows ----------------------------------------------------

/// Where a class record keeps its window procedure and its name.
pub open spec fn class_offsets(is_64bit: bool, ex: bool) -> (int, int) {
    if is_64bit {
        (8, 64)
    } else if ex {
        (8, 40)
    } else {
        (4, 36)
    }
}

/// `RegisterClass`: the window procedure of a class name.
pub open spec fn registered(g: GdiView, is_64bit: bool, m: MemView, p: u64, ex: bool) -> (
    GdiView,
    Reply,
) {
    let o = class_offsets(is_64bit, ex);
    match m.rptr(is_64bit, ga(p, o.0)) {
        Err(f) => (g, faulted(m, f)),
        Ok(wndproc) => match m.rptr(is_64bit, ga(p, o.1)) {
            Err(f) => (g, faulted(m, f)),
            Ok(np) => match wide_text(m, np) {
                Err(f) => (g, faulted(m, f)),
                Ok(name) => (
                    GdiView { classes: g.classes.insert(name, wndproc), ..g },
                    answer(m, 0xC0DE),
                ),
            },
        },
    }
}

/// A size that was given, or the default one.
pub open spec fn size_or(v: i64, default: u32) -> u32 {
    if v <= 0 || v == 0x8000_0000 {
        default
    } else {
        v as u32
    }
}

/// The units of a title; none where it cannot be read.
pub open spec fn title_at(m: MemView, p: u64) -> Seq<u16> {
    match units_at(m, p) {
        Ok(u) => u,
        Err(_) => Seq::empty(),
    }
}

/// How a window is to be created.
pub struct WindowSpec {
    pub class_ptr: u64,
    pub name_ptr: u64,
    pub style: u32,
    pub ex_style: u32,
    pub x: i32,
    pub y: i32,
    pub width: i64,
    pub height: i64,
    pub parent: u64,
}

/// What creating a window leads to.
pub struct Created {
    pub gdi: GdiView,
    pub ui: UiView,
    /// The new window, where its class is registered.
    pub r: Result<Option<u64>, Fault>,
}

/// `CreateWindowEx`: a window of a registered class, which becomes the one that
/// is shown; it owes its first paint.
pub open spec fn created(g: GdiView, ui: UiView, m: MemView, s: WindowSpec) -> Created {
    match wide_text(m, s.class_ptr) {
        Err(f) => Created { gdi: g, ui, r: Err(f) },
        Ok(class) => if !g.classes.contains_key(class) {
            Created { gdi: g, ui, r: Ok(None) }
        } else {
            let wndproc = g.classes[class];
            let title = title_at(m, s.name_ptr);
            let w = size_or(s.width, 640);
            let h = size_or(s.height, 480);
            let hwnd = g.next_hwnd;
            let window = WindowView {
                class,
                wndproc,
                style: s.style,
                ex_style: s.ex_style,
                rect: Rect { a: s.x, b: s.y, c: w as i32, d: h as i32 },
                parent: s.parent,
                title,
                userdata: 0,
                longs: Map::empty(),
                props: Map::empty(),
                visible: false,
                paint_pending: true,
                update_rect: Rect { a: 0, b: 0, c: w as i32, d: h as i32 },
            };
            Created {
                gdi: GdiView {
                    windows: g.windows.insert(hwnd, window),
                    next_hwnd: (hwnd + 0x10) as u64,
                    active: true,
                    active_hwnd: hwnd,
                    wndproc,
                    paint_pending: true,
                    dc: Dc { text_color: 0, pen_color: 0, brush_color: 0x00FF_FFFF, ..g.dc },
                    ..g
                },
                ui: ui.opened(EffectView::OpenWindow { title: utf16_lossy(title), width: w, height: h }),
                r: Ok(Some(hwnd)),
            }
        },
    }
}

impl Gdi {
    /// No window and no object.
    pub fn new() -> (g: Gdi)
        ensures
            g@ == GdiView::initial(),
    {
        let g = Gdi {
            active: false,
            wndproc: 0,
            classes: StrMap::new(),
            paint_pending: false,
            windows: HashMap::new(),
            next_hwnd: HWND_CUSTOM,
            active_hwnd: 0,
            focus_hwnd: 0,
            capture_hwnd: 0,
            objects: HashMap::new(),
            next_object: FIRST_OBJECT,
            dc: Dc {
                text_color: 0,
                pen_color: 0,
                brush_color: 0,
                bk_color: 0,
                bk_mode: 0,
                x: 0,
                y: 0,
                pen: 0,
                brush: 0,
                font: 0,
            },
            saved: Vec::new(),
        };
        assert(g@.windows =~= Map::empty());
        assert(g@.objects =~= Map::empty());
        g
    }

    /// Whether handles are left for one more window and one more object.
    pub open spec fn has_room(self) -> bool {
        self.next_hwnd <= u64::MAX - 0x10 && self.next_object <= u64::MAX - 8
    }

    /// `RegisterClass`.
    pub fn register_class(&mut self, is_64bit: bool, mem: &VirtualMemory, p: u64, ex: bool) -> (r:
        Result<u64, Fault>)
        ensures
            final(self)@ == registered(old(self)@, is_64bit, mem@, p, ex).0,
            r == registered(old(self)@, is_64bit, mem@, p, ex).1.r,
    {
        let (po, no): (u64, u64) = if is_64bit {
            (8, 64)
        } else if ex {
            (8, 40)
        } else {
            (4, 36)
        };
        let wndproc: u64 = match mem.read_ptr(is_64bit, at(p, po)) {
            Ok(v) => v,
            Err(f) => {
                return Err(f);
            },
        };
        let np: u64 = match mem.read_ptr(is_64bit, at(p, no)) {
            Ok(v) => v,
            Err(f) => {
                return Err(f);
            },
        };
        let name = match read_wstr(mem, np) {
            Ok(v) => v,
            Err(f) => {
                return Err(f);
            },
        };
        let _prev = self.classes.insert(name, wndproc);
        Ok(0xC0DE)
    }

    /// `CreateWindowEx`.
    pub fn create_window(&mut self, ui: &mut Ui, mem: &VirtualMemory, s: &WindowSpec) -> (r: Result<
        Option<u64>,
        Fault,
    >)
        requires
            old(self).has_room(),
        ensures
            final(self)@ == created(old(self)@, old(ui)@, mem@, *s).gdi,
            final(ui)@ == created(old(self)@, old(ui)@, mem@, *s).ui,
            r == created(old(self)@, old(ui)@, mem@, *s).r,
    {
        let class = match read_wstr(mem, s.class_ptr) {
            Ok(c) => c,
            Err(f) => {
                return Err(f);
            },
        };
        let wndproc: u64 = match self.classes.get(class.as_str()) {
            Some(p) => *p,
            None => {
                return Ok(None);
            },
        };
        let title = match read_wstr_units(mem, s.name_ptr) {
            Ok(u) => u,
            Err(_) => {
                let none: Vec<u16> = Vec::new();
                assert(none@ =~= Seq::<u16>::empty());
                none
            },
        };
        let text = decode_utf16_lossy(&title);
        let w: u32 = if s.width <= 0 || s.width == 0x8000_0000 {
            640
        } else {
            s.width as u32
        };
        let h: u32 = if s.height <= 0 || s.height == 0x8000_0000 {
            480
        } else {
            s.height as u32
        };
        let ghost g = self@;
        let ghost u = ui@;
        let hwnd: u64 = self.next_hwnd;
        self.next_hwnd = hwnd + 0x10;
        let window = Window {
            class,
            wndproc,
            style: s.style,
            ex_style: s.ex_style,
            rect: Rect { a: s.x, b: s.y, c: w as i32, d: h as i32 },
            parent: s.parent,
            title,
            userdata: 0,
            longs: HashMap::new(),
            props: StrMap::new(),
            visible: false,
            paint_pending: true,
            update_rect: Rect { a: 0, b: 0, c: w as i32, d: h as i32 },
        };
        let ghost wv = window@;
        let _prev = self.windows.insert(hwnd, window);
        ui.show(Effect::OpenWindow { title: text, width: w, height: h });
        self.active = true;
        self.active_hwnd = hwnd;
        self.wndproc = wndproc;
        self.paint_pending = true;
        self.dc.text_color = 0;
        self.dc.pen_color = 0;
        self.dc.brush_color = 0x00FF_FFFF;
        proof {
            assert(self@.windows =~= g.windows.insert(hwnd, wv));
            let c = created(g, u, mem@, *s);
            assert(self@ =~= c.gdi);
        }
        Ok(Some(hwnd))
    }

    /// The position and size of a window.
    pub fn rect_of(&self, h: u64) -> (r: Rect)
        ensures
            r == self@.rect_of(h),
    {
        match self.windows.get(&h) {
            Some(w) => w.rect,
            None => Rect { a: 0, b: 0, c: 640, d: 480 },
        }
    }

    /// The client size of a window.
    pub fn window_client(&self, h: u64, client: Option<(i32, i32)>) -> (r: (i32, i32))
        ensures
            r == self@.client_of(h, client),
    {
        match self.windows.get(&h) {
            Some(w) => (w.rect.c, w.rect.d),
            None => match client {
                Some(s) => s,
                None => (640, 480),
            },
        }
    }

    /// Whether a window has to be painted, and which part.
    pub fn update_region(&self, h: u64, client: Option<(i32, i32)>) -> (r: (bool, Rect))
        ensures
            r == self@.update_of(h, client),
    {
        match self.windows.get(&h) {
            Some(w) => (w.paint_pending, w.update_rect),
            None => {
                let s = self.window_client(h, client);
                (self.paint_pending, Rect { a: 0, b: 0, c: s.0, d: s.1 })
            },
        }
    }

    /// Mark a window as painted.
    fn mark_painted(&mut self, h: u64)
        ensures
            final(self)@ == old(self)@.painted(h),
    {
        let ghost g = self@;
        self.paint_pending = false;
        let ghost m = self.windows@;
        match self.windows.remove(&h) {
            Some(mut w) => {
                w.paint_pending = false;
                w.update_rect = Rect { a: 0, b: 0, c: 0, d: 0 };
                let ghost wv = w@;
                let _none = self.windows.insert(h, w);
                assert(self@.windows =~= g.windows.insert(h, wv));
            },
            None => {
                assert(self.windows@ =~= m);
            },
        }
        assert(self@ =~= g.painted(h));
    }
}

// ---- texts and procedures -----------------------------------------------------

impl GdiView {
    /// The text of a window.
    pub open spec fn title_of(self, h: u64) -> Seq<u16> {
        if self.windows.contains_key(h) {
            self.windows[h].title
        } else {
            Seq::empty()
        }
    }

    /// With another text of a window.
    pub open spec fn retitled(self, h: u64, title: Seq<u16>) -> GdiView {
        if self.windows.contains_key(h) {
            self.with_window(h, WindowView { title, ..self.windows[h] })
        } else {
            self
        }
    }

    /// The procedure that the messages of a window go to.
    pub open spec fn proc_of(self, h: u64) -> u64 {
        if self.windows.contains_key(h) {
            self.windows[h].wndproc
        } else {
            self.wndproc
        }
    }
}

impl Gdi {
    /// The text of a window.
    pub fn title(&self, h: u64) -> (r: Vec<u16>)
        ensures
            r@ == self@.title_of(h),
    {
        match self.windows.get(&h) {
            Some(w) => {
                assert(self@.windows[h] == w@);
                let t = w.title.clone();
                assert(t@ =~= w.title@);
                t
            },
            None => {
                let none: Vec<u16> = Vec::new();
                assert(none@ =~= Seq::<u16>::empty());
                none
            },
        }
    }

    /// Give a window another text.
    pub fn set_title(&mut self, h: u64, title: Vec<u16>)
        ensures
            final(self)@ == old(self)@.retitled(h, title@),
            old(self).has_room() ==> final(self).has_room(),
    {
        let ghost g = self@;
        let ghost m = self.windows@;
        let ghost t = title@;
        match self.windows.remove(&h) {
            Some(mut w) => {
                w.title = title;
                let ghost wv = w@;
                let _none = self.windows.insert(h, w);
                assert(self@.windows =~= g.windows.insert(h, wv));
            },
            None => {
                assert(self.windows@ =~= m);
            },
        }
        assert(self@ =~= g.retitled(h, t));
    }

    /// The procedure that the messages of a window go to.
    pub fn window_proc(&self, h: u64) -> (r: u64)
        ensures
            r == self@.proc_of(h),
    {
        match self.windows.get(&h) {
            Some(w) => w.wndproc,
            None => self.wndproc,
        }
    }
}

// ---- painting ---------------------------------------------------------------

/// The part of a window that is painted now: what was invalid, or all of it.
pub open spec fn paint_part(g: GdiView, h: u64, client: Option<(i32, i32)>) -> Rect {
    let s = g.client_of(h, client);
    let u = g.update_of(h, client);
    if u.0 {
        u.1
    } else {
        Rect { a: 0, b: 0, c: s.0, d: s.1 }
    }
}

/// The stores of a paint record: 72 zero bytes, the device context, the erase
/// flag and the part to paint.
pub open spec fn paint_table(p: u64, r: Rect) -> Seq<Store> {
    if p == 0 {
        Seq::empty()
    } else {
        byte_table(p, crate::fs::zeros(72)) + seq![
            s64(p, HDC_HANDLE),
            s32(ga(p, 8), 1),
            s32(ga(p, 12), r.a as u32),
            s32(ga(p, 16), r.b as u32),
            s32(ga(p, 20), r.c as u32),
            s32(ga(p, 24), r.d as u32),
        ]
    }
}

impl Gdi {
    /// `BeginPaint`: the paint record is filled and the window counts as painted.
    pub fn begin_paint(
        &mut self,
        mem: &mut VirtualMemory,
        client: Option<(i32, i32)>,
        h: u64,
        p: u64,
    ) -> (r: Result<u64, Fault>)
        ensures
            ({
                let o = answer_stores(
                    old(mem)@,
                    paint_table(p, paint_part(old(self)@, h, client)),
                    HDC_HANDLE,
                );
                &&& final(mem)@ == o.mem
                &&& r == o.r
                &&& final(self)@ == (if r is Ok {
                    old(self)@.painted(h)
                } else {
                    old(self)@
                })
            }),
    {
        let s = self.window_client(h, client);
        let u = self.update_region(h, client);
        let part: Rect = if u.0 {
            u.1
        } else {
            Rect { a: 0, b: 0, c: s.0, d: s.1 }
        };
        let mut t: Vec<Store> = Vec::new();
        if p != 0 {
            let z = crate::fs::zero_bytes(72);
            t = crate::gstr::byte_stores(p, &z);
            t.push(store64(p, HDC_HANDLE));
            t.push(store32(at(p, 8), 1));
            t.push(store32(at(p, 12), part.a as u32));
            t.push(store32(at(p, 16), part.b as u32));
            t.push(store32(at(p, 20), part.c as u32));
            t.push(store32(at(p, 24), part.d as u32));
        }
        assert(t@ =~= paint_table(p, part));
        match mem.store_all(&t) {
            Ok(_) => {},
            Err(f) => {
                return Err(f);
            },
        }
        self.mark_painted(h);
        Ok(HDC_HANDLE)
    }

    /// `GetDC`: there is one device context.
    pub fn get_dc(&self, h: u64) -> (r: u64)
        ensures
            r == HDC_HANDLE,
    {
        HDC_HANDLE
    }

    /// `InvalidateRect`: a part of a window, or all of it, has to be painted.
    pub fn invalidate_rect(
        &mut self,
        mem: &VirtualMemory,
        client: Option<(i32, i32)>,
        h: u64,
        p: u64,
    ) -> (r: Result<u64, Fault>)
        ensures
            ({
                let s = old(self)@.client_of(h, client);
                let part = if p != 0 {
                    rect_at(mem@, p)
                } else {
                    Ok(Rect { a: 0, b: 0, c: s.0, d: s.1 })
                };
                match part {
                    Err(f) => r == Err::<u64, Fault>(f) && final(self)@ == old(self)@,
                    Ok(q) => r == Ok::<u64, Fault>(1) && final(self)@ == old(self)@.invalidated(
                        h,
                        q,
                    ),
                }
            }),
    {
        let s = self.window_client(h, client);
        let part: Rect = if p != 0 {
            match read_rect(mem, p) {
                Ok(q) => q,
                Err(f) => {
                    return Err(f);
                },
            }
        } else {
            Rect { a: 0, b: 0, c: s.0, d: s.1 }
        };
        let ghost g = self@;
        let ghost m = self.windows@;
        match self.windows.remove(&h) {
            Some(mut w) => {
                w.update_rect = if w.paint_pending {
                    union_rect(w.update_rect, part)
                } else {
                    part
                };
                w.paint_pending = true;
                let ghost wv = w@;
                let _none = self.windows.insert(h, w);
                assert(self@.windows =~= g.windows.insert(h, wv));
            },
            None => {
                assert(self.windows@ =~= m);
                self.paint_pending = true;
            },
        }
        assert(self@ =~= g.invalidated(h, part));
        Ok(1)
    }

    /// `ValidateRect`: nothing has to be painted.
    pub fn validate_rect(&mut self, h: u64) -> (r: u64)
        ensures
            r == 1,
            final(self)@ == old(self)@.painted(h),
    {
        self.mark_painted(h);
        1
    }

    /// `GetUpdateRect`: whether a paint is due, and which part.
    pub fn get_update_rect(
        &self,
        mem: &mut VirtualMemory,
        client: Option<(i32, i32)>,
        h: u64,
        p: u64,
    ) -> (r: Result<u64, Fault>)
        ensures
            ({
                let u = self@.update_of(h, client);
                let part = if u.0 {
                    u.1
                } else {
                    Rect { a: 0, b: 0, c: 0, d: 0 }
                };
                let o = answer_stores(
                    old(mem)@,
                    rect_table(p, part),
                    if u.0 {
                        1
                    } else {
                        0
                    },
                );
                final(mem)@ == o.mem && r == o.r
            }),
    {
        let u = self.update_region(h, client);
        let part: Rect = if u.0 {
            u.1
        } else {
            Rect { a: 0, b: 0, c: 0, d: 0 }
        };
        let t = rect_stores(p, part);
        finish(
            mem,
            &t,
            if u.0 {
                1
            } else {
                0
            },
        )
    }
}

// ---- objects and device contexts --------------------------------------------

/// The stock objects.
pub open spec fn stock_object(index: u64) -> ObjectView {
    if index == 0 || index == 5 {
        ObjectView::Brush(0x00FF_FFFF)
    } else if index == 1 {
        ObjectView::Brush(0x00C0_C0C0)
    } else if index == 2 {
        ObjectView::Brush(0x0080_8080)
    } else if index == 7 {
        ObjectView::Pen(0)
    } else if index == 8 {
        ObjectView::Pen(0x00FF_FFFF)
    } else if 10 <= index <= 17 {
        ObjectView::Font { height: 0, weight: 0, italic: false, face: Seq::empty() }
    } else {
        ObjectView::Brush(0)
    }
}

/// What `CreateFontIndirect` reads: height, weight, slant and face; a face that
/// cannot be read is none.
pub open spec fn font_at(m: MemView, p: u64) -> Result<ObjectView, Fault> {
    match m.r32(p) {
        Err(f) => Err(f),
        Ok(height) => match m.r32(ga(p, 16)) {
            Err(f) => Err(f),
            Ok(weight) => match m.r8(ga(p, 20)) {
                Err(f) => Err(f),
                Ok(italic) => Ok(
                    ObjectView::Font {
                        height: height as i32,
                        weight: weight as i32,
                        italic: italic != 0,
                        face: match wide_text(m, ga(p, 28)) {
                            Ok(s) => s,
                            Err(_) => Seq::empty(),
                        },
                    },
                ),
            },
        },
    }
}

/// What `GetObject` tells of an object: the record of a font, as far as the buffer
/// goes; nothing of another object.
pub open spec fn object_reply(
    g: GdiView,
    m: MemView,
    obj: u64,
    cb: u64,
    p: u64,
    wide: bool,
) -> Reply {
    if !g.objects.contains_key(obj) {
        answer(m, 0)
    } else {
        match g.objects[obj] {
            ObjectView::Font { height, weight, italic, face } => {
                let size: u64 = if wide {
                    92
                } else {
                    60
                };
                if p == 0 || cb < 28 {
                    answer(m, size)
                } else {
                    let n = if cb < size {
                        cb
                    } else {
                        size
                    };
                    let t = byte_table(p, crate::fs::zeros(n as nat)) + seq![
                        s32(p, height as u32),
                        s32(ga(p, 16), weight as u32),
                        s8(
                            ga(p, 20),
                            if italic {
                                1
                            } else {
                                0
                            },
                        ),
                    ];
                    follow(
                        m.store_all(t),
                        |k: MemView|
                            {
                                let w = if wide {
                                    wide_write(k, ga(p, 28), utf16(face), 32)
                                } else {
                                    narrow_write(k, ga(p, 28), encode_utf8(face), 32)
                                };
                                match w.r {
                                    Err(_) => w,
                                    Ok(_) => answer(w.mem, size),
                                }
                            },
                    )
                }
            },
            _ => answer(m, 0),
        }
    }
}

impl Gdi {
    /// Give an object a handle.
    fn alloc_obj(&mut self, o: GdiObject) -> (h: u64)
        requires
            old(self).has_room(),
        ensures
            h == old(self)@.next_object,
            final(self)@ == old(self)@.with_object(o@),
    {
        let ghost g = self@;
        let ghost ov = o@;
        let h: u64 = self.next_object;
        self.next_object = h + 8;
        let _prev = self.objects.insert(h, o);
        assert(self@.objects =~= g.objects.insert(h, ov));
        h
    }

    /// `CreateSolidBrush`.
    pub fn create_solid_brush(&mut self, color: u32) -> (h: u64)
        requires
            old(self).has_room(),
        ensures
            h == old(self)@.next_object,
            final(self)@ == old(self)@.with_object(ObjectView::Brush(rgb(color))),
    {
        self.alloc_obj(GdiObject::Brush(colorref_to_rgb(color)))
    }

    /// `CreatePen`.
    pub fn create_pen(&mut self, color: u32) -> (h: u64)
        requires
            old(self).has_room(),
        ensures
            h == old(self)@.next_object,
            final(self)@ == old(self)@.with_object(ObjectView::Pen(rgb(color))),
    {
        self.alloc_obj(GdiObject::Pen(colorref_to_rgb(color)))
    }

    /// `CreateFontIndirect`.
    pub fn create_font_indirect(&mut self, mem: &VirtualMemory, p: u64) -> (r: Result<u64, Fault>)
        requires
            old(self).has_room(),
        ensures
            match font_at(mem@, p) {
                Err(f) => r == Err::<u64, Fault>(f) && final(self)@ == old(self)@,
                Ok(o) => r == Ok::<u64, Fault>(old(self)@.next_object) && final(self)@ == old(
                    self,
                )@.with_object(o),
            },
    {
        let height: u32 = match mem.read_u32(p) {
            Ok(v) => v,
            Err(f) => {
                return Err(f);
            },
        };
        let weight: u32 = match mem.read_u32(at(p, 16)) {
            Ok(v) => v,
            Err(f) => {
                return Err(f);
            },
        };
        let italic: u8 = match mem.read_u8(at(p, 20)) {
            Ok(v) => v,
            Err(f) => {
                return Err(f);
            },
        };
        let face = match read_wstr(mem, at(p, 28)) {
            Ok(s) => s,
            Err(_) => {
                let s = String::new();
                assert(s@ =~= Seq::<char>::empty());
                s
            },
        };
        Ok(
            self.alloc_obj(
                GdiObject::Font {
                    height: height as i32,
                    weight: weight as i32,
                    italic: italic != 0,
                    face,
                },
            ),
        )
    }

    /// `GetObject`.
    pub fn get_object(&self, mem: &mut VirtualMemory, obj: u64, cb: u64, p: u64, wide: bool) -> (r:
        Result<u64, Fault>)
        ensures
            final(mem)@ == object_reply(self@, old(mem)@, obj, cb, p, wide).mem,
            r == object_reply(self@, old(mem)@, obj, cb, p, wide).r,
    {
        match self.objects.get(&obj) {
            Some(GdiObject::Font { height, weight, italic, face }) => {
                let size: u64 = if wide {
                    92
                } else {
                    60
                };
                if p == 0 || cb < 28 {
                    return Ok(size);
                }
                let n: u64 = if cb < size {
                    cb
                } else {
                    size
                };
                let z = crate::fs::zero_bytes(n as usize);
                let mut t = crate::gstr::byte_stores(p, &z);
                let slant: u8 = if *italic {
                    1
                } else {
                    0
                };
                t.push(store32(p, *height as u32));
                t.push(store32(at(p, 16), *weight as u32));
                t.push(store8(at(p, 20), slant));
                assert(t@ =~= byte_table(p, crate::fs::zeros(n as nat)) + seq![
                    s32(p, *height as u32),
                    s32(ga(p, 16), *weight as u32),
                    s8(ga(p, 20), slant),
                ]);
                match mem.store_all(&t) {
                    Ok(_) => {},
                    Err(f) => {
                        return Err(f);
                    },
                }
                let w = if wide {
                    write_wstr(mem, at(p, 28), face.as_str(), 32)
                } else {
                    write_astr(mem, at(p, 28), face.as_str(), 32)
                };
                match w {
                    Ok(_) => Ok(size),
                    Err(f) => Err(f),
                }
            },
            _ => Ok(0),
        }
    }

    /// `GetStockObject`.
    pub fn get_stock_object(&mut self, index: u64) -> (h: u64)
        requires
            old(self).has_room(),
        ensures
            h == old(self)@.next_object,
            final(self)@ == old(self)@.with_object(stock_object(index)),
    {
        let o = if index == 0 || index == 5 {
            GdiObject::Brush(0x00FF_FFFF)
        } else if index == 1 {
            GdiObject::Brush(0x00C0_C0C0)
        } else if index == 2 {
            GdiObject::Brush(0x0080_8080)
        } else if index == 7 {
            GdiObject::Pen(0)
        } else if index == 8 {
            GdiObject::Pen(0x00FF_FFFF)
        } else if 10 <= index && index <= 17 {
            let face = String::new();
            assert(face@ =~= Seq::<char>::empty());
            GdiObject::Font { height: 0, weight: 0, italic: false, face }
        } else {
            GdiObject::Brush(0)
        };
        self.alloc_obj(o)
    }

    /// `SelectObject`: the object takes the place of the one of its kind, which is
    /// returned.
    pub fn select_object(&mut self, obj: u64) -> (r: u64)
        ensures
            (final(self)@, r) == old(self)@.selected(obj),
    {
        match self.objects.get(&obj) {
            Some(GdiObject::Pen(c)) => {
                let prev: u64 = self.dc.pen;
                self.dc.pen_color = *c;
                self.dc.pen = obj;
                prev
            },
            Some(GdiObject::Brush(c)) => {
                let prev: u64 = self.dc.brush;
                self.dc.brush_color = *c;
                self.dc.brush = obj;
                prev
            },
            Some(GdiObject::Font { .. }) => {
                let prev: u64 = self.dc.font;
                self.dc.font = obj;
                prev
            },
            None => 0,
        }
    }

    /// `SaveDC`: the number of saved contexts.
    pub fn save_dc(&mut self) -> (r: u64)
        ensures
            final(self)@ == (GdiView { saved: old(self)@.saved.push(old(self)@.dc), ..old(self)@ }),
            r == old(self)@.saved.len() + 1,
    {
        let dc: Dc = self.dc;
        self.saved.push(dc);
        self.saved.len() as u64
    }

    /// `RestoreDC`.
    pub fn restore_dc(&mut self, level: i64) -> (r: u64)
        ensures
            (final(self)@, r) == old(self)@.restored(level),
    {
        let depth: usize = self.saved.len();
        let target: i128 = if level < 0 {
            depth as i128 + level as i128
        } else {
            level as i128 - 1
        };
        if target < 0 || target >= depth as i128 {
            return 0;
        }
        let k: usize = target as usize;
        self.dc = self.saved[k];
        self.saved.truncate(k);
        assert(self.saved@ =~= old(self).saved@.take(k as int));
        1
    }

    /// `SetTextColor`: the color before.
    pub fn set_text_color(&mut self, color: u32) -> (r: u64)
        ensures
            r == old(self)@.dc.text_color,
            final(self)@ == (GdiView {
                dc: Dc { text_color: rgb(color), ..old(self)@.dc },
                ..old(self)@
            }),
    {
        let prev: u32 = self.dc.text_color;
        self.dc.text_color = colorref_to_rgb(color);
        prev as u64
    }

    /// `SetBkColor`: the color before.
    pub fn set_bk_color(&mut self, color: u32) -> (r: u64)
        ensures
            r == old(self)@.dc.bk_color,
            final(self)@ == (GdiView {
                dc: Dc { bk_color: rgb(color), ..old(self)@.dc },
                ..old(self)@
            }),
    {
        let prev: u32 = self.dc.bk_color;
        self.dc.bk_color = colorref_to_rgb(color);
        prev as u64
    }

    /// `SetBkMode`: the mode before.
    pub fn set_bk_mode(&mut self, mode: u32) -> (r: u64)
        ensures
            r == old(self)@.dc.bk_mode,
            final(self)@ == (GdiView { dc: Dc { bk_mode: mode, ..old(self)@.dc }, ..old(self)@ }),
    {
        let prev: u32 = self.dc.bk_mode;
        self.dc.bk_mode = mode;
        prev as u64
    }
}

// ---- drawing ----------------------------------------------------------------

/// The difference of two coordinates, modulo 2^32.
pub open spec fn span(to: i32, from: i32) -> i32 {
    ((to as u32 - from as u32) % 0x1_0000_0000) as u32 as i32
}

/// The difference of two coordinates, modulo 2^32.
fn span_of(to: i32, from: i32) -> (r: i32)
    ensures
        r == span(to, from),
{
    (to as u32).wrapping_sub(from as u32) as i32
}

/// The color that `FillRect` fills with: that of the brush, or the selected one.
pub open spec fn fill_color(g: GdiView, brush: u64) -> u32 {
    if g.objects.contains_key(brush) && g.objects[brush] is Brush {
        g.objects[brush]->Brush_0
    } else {
        g.dc.brush_color
    }
}

/// A filled rectangle.
pub open spec fn filled(r: Rect, color: u32) -> EffectView {
    EffectView::FillRect { x: r.a, y: r.b, w: span(r.c, r.a), h: span(r.d, r.b), color }
}

/// A framed rectangle.
pub open spec fn outlined(r: Rect, color: u32) -> EffectView {
    EffectView::FrameRect { x: r.a, y: r.b, w: span(r.c, r.a), h: span(r.d, r.b), color }
}

impl Gdi {
    /// `FillRect`.
    pub fn gdi_fill_rect(&self, ui: &mut Ui, mem: &VirtualMemory, p: u64, brush: u64) -> (r: Result<
        u64,
        Fault,
    >)
        ensures
            match rect_at(mem@, p) {
                Err(f) => r == Err::<u64, Fault>(f) && final(ui)@ == old(ui)@,
                Ok(q) => r == Ok::<u64, Fault>(1) && final(ui)@ == old(ui)@.with(
                    filled(q, fill_color(self@, brush)),
                ),
            },
    {
        let q: Rect = match read_rect(mem, p) {
            Ok(q) => q,
            Err(f) => {
                return Err(f);
            },
        };
        let color: u32 = match self.objects.get(&brush) {
            Some(GdiObject::Brush(c)) => *c,
            _ => self.dc.brush_color,
        };
        ui.push(
            Effect::Draw(
                DrawOp::FillRect {
                    x: q.a,
                    y: q.b,
                    w: span_of(q.c, q.a),
                    h: span_of(q.d, q.b),
                    color,
                },
            ),
        );
        Ok(1)
    }

    /// `Rectangle`: filled with the brush and framed with the pen.
    pub fn gdi_rectangle(&self, ui: &mut Ui, q: Rect)
        ensures
            final(ui)@ == old(ui)@.with(filled(q, self@.dc.brush_color)).with(
                outlined(q, self@.dc.pen_color),
            ),
    {
        let w: i32 = span_of(q.c, q.a);
        let h: i32 = span_of(q.d, q.b);
        ui.push(
            Effect::Draw(
                DrawOp::FillRect { x: q.a, y: q.b, w, h, color: self.dc.brush_color },
            ),
        );
        ui.push(
            Effect::Draw(DrawOp::FrameRect { x: q.a, y: q.b, w, h, color: self.dc.pen_color }),
        );
    }

    /// `TextOut`.
    pub fn gdi_text_out(&self, ui: &mut Ui, x: i32, y: i32, text: String)
        ensures
            final(ui)@ == old(ui)@.with(
                EffectView::Text { x, y, text: text@, color: self@.dc.text_color },
            ),
    {
        ui.push(Effect::Draw(DrawOp::Text { x, y, text, color: self.dc.text_color }));
    }

    /// `LineTo`: a line from the current position, which moves along.
    pub fn gdi_line_to(&mut self, ui: &mut Ui, x: i32, y: i32)
        ensures
            final(ui)@ == old(ui)@.with(
                EffectView::Line {
                    x0: old(self)@.dc.x,
                    y0: old(self)@.dc.y,
                    x1: x,
                    y1: y,
                    color: old(self)@.dc.pen_color,
                },
            ),
            final(self)@ == (GdiView { dc: Dc { x, y, ..old(self)@.dc }, ..old(self)@ }),
    {
        ui.push(
            Effect::Draw(
                DrawOp::Line {
                    x0: self.dc.x,
                    y0: self.dc.y,
                    x1: x,
                    y1: y,
                    color: self.dc.pen_color,
                },
            ),
        );
        self.dc.x = x;
        self.dc.y = y;
    }

    /// `MoveToEx`: the current position.
    pub fn gdi_move_to(&mut self, x: i32, y: i32)
        ensures
            final(self)@ == (GdiView { dc: Dc { x, y, ..old(self)@.dc }, ..old(self)@ }),
    {
        self.dc.x = x;
        self.dc.y = y;
    }

    /// `SetPixel`.
    pub fn gdi_set_pixel(&self, ui: &mut Ui, x: i32, y: i32, color: u32)
        ensures
            final(ui)@ == old(ui)@.with(EffectView::Pixel { x, y, color: rgb(color) }),
    {
        ui.push(Effect::Draw(DrawOp::Pixel { x, y, color: colorref_to_rgb(color) }));
    }
}

// ---- laws -------------------------------------------------------------------

/// Selecting the object that a selection replaced brings it back: the next
/// selection of the kind returns what was selected.
pub proof fn lemma_select_returns_previous(g: GdiView, a: u64, b: u64)
    requires
        g.objects.contains_key(a),
        g.objects.contains_key(b),
        (g.objects[a] is Pen && g.objects[b] is Pen) || (g.objects[a] is Brush
            && g.objects[b] is Brush) || (g.objects[a] is Font && g.objects[b] is Font),
    ensures
        g.selected(a).0.selected(b).1 == a,
        g.selected(a).0.selected(b).0.dc == g.selected(b).0.dc,
{
}

/// Restoring the last saved context brings all of it back, whatever was drawn and
/// selected in between.
pub proof fn lemma_restore_undoes_save(g: GdiView, h: GdiView)
    requires
        h.saved == g.saved.push(g.dc),
    ensures
        h.restored(-1i64).1 == 1,
        h.restored(-1i64).0.dc == g.dc,
        h.restored(-1i64).0.saved == g.saved,
        g.saved.len() + 1 <= i64::MAX ==> h.restored((g.saved.len() + 1) as i64).0.dc == g.dc,
{
    assert(h.saved.take(g.saved.len() as int) =~= g.saved);
}

/// A part that was invalidated is owed until the window is painted, and no other
/// window changes.
pub proof fn lemma_paint_owed(g: GdiView, h: u64, r: Rect, other: u64, client: Option<(i32, i32)>)
    requires
        g.windows.contains_key(h),
        other != h,
    ensures
        g.invalidated(h, r).update_of(h, client).0,
        !g.windows[h].paint_pending ==> g.invalidated(h, r).update_of(h, client).1 == r,
        !g.invalidated(h, r).painted(h).update_of(h, client).0,
        g.windows.contains_key(other) ==> g.invalidated(h, r).painted(h).windows[other]
            == g.windows[other],
{
}

/// A window that is created has a handle of its own.
pub proof fn lemma_new_window(g: GdiView, ui: UiView, m: MemView, s: WindowSpec)
    requires
        forall|h: u64| #[trigger] g.windows.contains_key(h) ==> h < g.next_hwnd,
        g.next_hwnd <= u64::MAX - 0x10,
        created(g, ui, m, s).r matches Ok(Some(_)),
    ensures
        ({
            let o = created(g, ui, m, s);
            let h = o.r->Ok_0->0;
            &&& !g.windows.contains_key(h)
            &&& o.gdi.windows.contains_key(h)
            &&& forall|k: u64| #[trigger]
                g.windows.contains_key(k) ==> o.gdi.windows[k] == g.windows[k]
            &&& forall|k: u64| #[trigger]
                o.gdi.windows.contains_key(k) ==> k < o.gdi.next_hwnd
        }),
{
}

/// The text that a window was given is its text, and its procedure stays.
pub proof fn lemma_title_read_back(g: GdiView, h: u64, title: Seq<u16>)
    requires
        g.windows.contains_key(h),
    ensures
        g.retitled(h, title).title_of(h) == title,
        g.retitled(h, title).proc_of(h) == g.proc_of(h),
{
}

} // verus!
