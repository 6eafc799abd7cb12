//! The window backend as the layer sees it, and what it is told to do.

use vstd::prelude::*;

use std::collections::HashMap;

verus! {

broadcast use vstd::std_specs::hash::group_hash_axioms;

/// A drawing operation; colors are `0x00RRGGBB`.
pub enum DrawOp {
    FillRect { x: i32, y: i32, w: i32, h: i32, color: u32 },
    FrameRect { x: i32, y: i32, w: i32, h: i32, color: u32 },
    Text { x: i32, y: i32, text: String, color: u32 },
    Line { x0: i32, y0: i32, x1: i32, y1: i32, color: u32 },
    Pixel { x: i32, y: i32, color: u32 },
}

/// Something that the window backend has to do.
pub enum Effect {
    OpenWindow { title: String, width: u32, height: u32 },
    /// Show the dialog template with this resource id.
    OpenDialog { id: u32 },
    Close,
    SetText { id: u32, text: String },
    /// The state of a progress bar.
    Progress { id: u32, min: i64, max: i64, pos: i64 },
    Draw(DrawOp),
    Present,
}

/// An effect as mathematics.
pub enum EffectView {
    OpenWindow { title: Seq<char>, width: u32, height: u32 },
    OpenDialog { id: u32 },
    Close,
    SetText { id: u32, text: Seq<char> },
    Progress { id: u32, min: i64, max: i64, pos: i64 },
    FillRect { x: i32, y: i32, w: i32, h: i32, color: u32 },
    FrameRect { x: i32, y: i32, w: i32, h: i32, color: u32 },
    Text { x: i32, y: i32, text: Seq<char>, color: u32 },
    Line { x0: i32, y0: i32, x1: i32, y1: i32, color: u32 },
    Pixel { x: i32, y: i32, color: u32 },
    Present,
}

impl View for Effect {
    type V = EffectView;

    open spec fn view(&self) -> EffectView {
        match *self {
            Effect::OpenWindow { title, width, height } => EffectView::OpenWindow {
                title: title@,
                width,
                height,
            },
            Effect::OpenDialog { id } => EffectView::OpenDialog { id },
            Effect::Close => EffectView::Close,
            Effect::SetText { id, text } => EffectView::SetText { id, text: text@ },
            Effect::Progress { id, min, max, pos } => EffectView::Progress { id, min, max, pos },
            Effect::Draw(op) => match op {
                DrawOp::FillRect { x, y, w, h, color } => EffectView::FillRect {
                    x,
                    y,
                    w,
                    h,
                    color,
                },
                DrawOp::FrameRect { x, y, w, h, color } => EffectView::FrameRect {
                    x,
                    y,
                    w,
                    h,
                    color,
                },
                DrawOp::Text { x, y, text, color } => EffectView::Text {
                    x,
                    y,
                    text: text@,
                    color,
                },
                DrawOp::Line { x0, y0, x1, y1, color } => EffectView::Line {
                    x0,
                    y0,
                    x1,
                    y1,
                    color,
                },
                DrawOp::Pixel { x, y, color } => EffectView::Pixel { x, y, color },
            },
            Effect::Present => EffectView::Present,
        }
    }
}

/// The window backend.
pub struct Ui {
    /// Whether a backend that shows windows is installed.
    pub backend: bool,
    /// Whether a window is shown.
    pub open: bool,
    /// The size of what is shown, as the host last told it.
    pub client: Option<(i32, i32)>,
    /// The resource ids of the dialog templates of the image.
    pub templates: Vec<u32>,
    /// The texts that the user edited, in code units.
    pub edited: HashMap<u32, Vec<u16>>,
    /// What the backend has still to do, in order.
    pub effects: Vec<Effect>,
}

/// The window backend as mathematics.
#[verifier::ext_equal]
pub struct UiView {
    pub backend: bool,
    pub open: bool,
    pub client: Option<(i32, i32)>,
    pub templates: Seq<u32>,
    pub edited: Map<u32, Seq<u16>>,
    pub effects: Seq<EffectView>,
}

/// The views of effects.
pub open spec fn effect_views(s: Seq<Effect>) -> Seq<EffectView> {
    Seq::new(s.len(), |i: int| s[i]@)
}

/// The views of texts by control.
pub open spec fn text_views(m: Map<u32, Vec<u16>>) -> Map<u32, Seq<u16>> {
    Map::new(|k: u32| m.contains_key(k), |k: u32| m[k]@)
}

impl View for Ui {
    type V = UiView;

    open spec fn view(&self) -> UiView {
        UiView {
            backend: self.backend,
            open: self.open,
            client: self.client,
            templates: self.templates@,
            edited: text_views(self.edited@),
            effects: effect_views(self.effects@),
        }
    }
}

impl UiView {
    /// With one more effect.
    pub open spec fn with(self, e: EffectView) -> UiView {
        UiView { effects: self.effects.push(e), ..self }
    }

    /// With a window that was asked to open: it shows where there is a backend.
    pub open spec fn opened(self, e: EffectView) -> UiView {
        UiView { open: self.backend, ..self.with(e) }
    }

    /// With the window closed.
    pub open spec fn closed(self) -> UiView {
        UiView { open: false, ..self.with(EffectView::Close) }
    }
}

impl Ui {
    /// No backend: every dialog is driven without a user.
    pub fn headless() -> (u: Ui)
        ensures
            u@ == (UiView {
                backend: false,
                open: false,
                client: None,
                templates: Seq::empty(),
                edited: Map::empty(),
                effects: Seq::empty(),
            }),
    {
        let u = Ui {
            backend: false,
            open: false,
            client: None,
            templates: Vec::new(),
            edited: HashMap::new(),
            effects: Vec::new(),
        };
        assert(u@.edited =~= Map::empty());
        assert(u@.effects =~= Seq::empty());
        u
    }

    /// Queue an effect.
    pub fn push(&mut self, e: Effect)
        ensures
            final(self)@ == old(self)@.with(e@),
    {
        let ghost v = self@;
        let ghost ev = e@;
        self.effects.push(e);
        assert(self@.effects =~= v.effects.push(ev));
    }

    /// Open a window or a dialog.
    pub fn show(&mut self, e: Effect)
        ensures
            final(self)@ == old(self)@.opened(e@),
    {
        self.push(e);
        self.open = self.backend;
    }

    /// Close the window.
    pub fn close(&mut self)
        ensures
            final(self)@ == old(self)@.closed(),
    {
        self.push(Effect::Close);
        self.open = false;
    }

    /// Whether the image has a dialog template with this id.
    pub fn has_template(&self, id: u32) -> (r: bool)
        ensures
            r == self@.templates.contains(id),
    {
        let mut i: usize = 0;
        while i < self.templates.len()
            invariant
                i <= self.templates.len(),
                forall|j: int| 0 <= j < i ==> self.templates@[j] != id,
            decreases self.templates.len() - i,
        {
            if self.templates[i] == id {
                return true;
            }
            i = i + 1;
        }
        false
    }

    /// Take over the effects that the backend has still to perform.
    pub fn take_effects(&mut self) -> (r: Vec<Effect>)
        ensures
            effect_views(r@) == old(self)@.effects,
            final(self)@ == (UiView { effects: Seq::empty(), ..old(self)@ }),
    {
        let mut out: Vec<Effect> = Vec::new();
        std::mem::swap(&mut out, &mut self.effects);
        assert(self@.effects =~= Seq::empty());
        out
    }

    /// Note a text that the user edited.
    pub fn note_edit(&mut self, id: u32, text: Vec<u16>)
        ensures
            final(self)@ == (UiView { edited: old(self)@.edited.insert(id, text@), ..old(self)@ }),
    {
        let ghost v = self@;
        let ghost t = text@;
        let _prev = self.edited.insert(id, text);
        assert(self@.edited =~= v.edited.insert(id, t));
    }
}

} // verus!
