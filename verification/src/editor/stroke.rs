//! What a stroke lands in and what it is made with, all decided at its press.

use crate::editor::document::{Editor, Pressure};
use crate::editor::hand::{Brush, BrushMode, Color};
use crate::editor::layers::{fastened, refusal_of, BlendMode, EditTarget, Stack};
use crate::editor::state::Interaction;
use crate::ratio::WHOLE;
use vstd::prelude::*;

verus! {

/// What a stroke is committed with. Snapshotted at the press: the artist can
/// change the colour mid-stroke, and the stroke must finish as it started.
#[derive(Clone, Copy, Debug, PartialEq, Eq, Structural)]
pub struct StrokeStyle {
    pub color: Color,
    pub opacity: i64,
    pub mode: BrushMode,
    pub blend: BlendMode,
    /// Whether each dab carries a colour of its own.
    pub per_dab_color: bool,
    pub on_mask: bool,
}

/// What a stroke is begun with: the brush that makes its dabs and the red, green
/// and blue they carry.
#[derive(Clone, Copy, Debug, PartialEq, Eq, Structural)]
pub struct StrokeStart {
    pub brush: Brush,
    pub red: i64,
    pub green: i64,
    pub blue: i64,
}

/// A brush in another mode.
pub open spec fn in_mode(brush: Brush, mode: BrushMode) -> Brush {
    Brush { mode, ..brush }
}

/// Where a stroke would go: the slice, and whether it is a mask. Asking for the
/// mask of a layer that has none paints the layer; a folder has nowhere for a
/// stroke to land.
pub open spec fn target_of(stack: Stack, target: EditTarget) -> Option<(u32, bool)> {
    let layer = stack.selected();
    match (target, layer.mask) {
        (EditTarget::Mask, Some(slot)) => Some((slot, true)),
        _ => match layer.slot {
            Some(slot) => Some((slot, false)),
            None => None,
        },
    }
}

pub fn stroke_target(stack: &Stack, target: EditTarget) -> (r: Option<(u32, bool)>)
    requires
        stack.sound(),
    ensures
        r == target_of(*stack, target),
{
    let layer: Option<(u32, bool)> = match stack.active_slot() {
        Some(slot) => Some((slot, false)),
        None => None,
    };
    match target {
        EditTarget::Mask => match stack.active_mask() {
            Some(slot) => Some((slot, true)),
            None => layer,
        },
        EditTarget::Layer => layer,
    }
}

/// Whether the interface shows the mask as the thing being painted.
pub fn editing_mask(stack: &Stack, target: EditTarget) -> (r: bool)
    requires
        stack.sound(),
    ensures
        r == (target_of(*stack, target) matches Some((_, mask)) && mask),
{
    match stroke_target(stack, target) {
        Some((_, mask)) => mask,
        None => false,
    }
}

/// What a stroke on a mask puts down. A mask holds coverage, so the palette is
/// read as the grey it is as light as; the eraser reveals, which is to paint
/// white.
pub open spec fn mask_color(mode: BrushMode, luminance: i64) -> Color {
    let level = match mode {
        BrushMode::Erase => WHOLE,
        BrushMode::Paint => luminance,
    };
    Color { r: level, g: level, b: level, a: WHOLE }
}

pub fn mask_paint(mode: BrushMode, luminance: i64) -> (r: (Color, BrushMode))
    ensures
        r == (mask_color(mode, luminance), BrushMode::Paint),
{
    let level: i64 = match mode {
        BrushMode::Erase => WHOLE,
        BrushMode::Paint => luminance,
    };
    (Color { r: level, g: level, b: level, a: WHOLE }, BrushMode::Paint)
}

impl Editor {
    /// The target a stroke would be refused or taken by: the one the stroke
    /// resolves to, which falls back to the layer without a mask.
    pub open spec fn stroke_asks(self, on_mask: bool) -> EditTarget {
        if on_mask {
            EditTarget::Mask
        } else {
            EditTarget::Layer
        }
    }

    /// Whether a stroke would start.
    pub open spec fn takes_stroke(self) -> bool {
        match target_of(self.page.layers, self.page.edit_target) {
            Some((_, on_mask)) => refusal_of(
                self.page.layers.layers@,
                self.page.layers.active as int,
                self.stroke_asks(on_mask),
            ) is None,
            None => false,
        }
    }

    /// Whether the stroke stamps its tip's own colour. There is nowhere for one
    /// to land on a mask, and an eraser deposits none.
    pub open spec fn stamps_colour(self, on_mask: bool) -> bool {
        &&& !on_mask
        &&& self.hand.brush.mode == BrushMode::Paint
        &&& self.hand.tip matches Some(tip) && tip.coloured
    }

    pub open spec fn style_of(self, on_mask: bool, luminance: i64) -> StrokeStyle {
        StrokeStyle {
            color: if on_mask {
                mask_color(self.hand.brush.mode, luminance)
            } else {
                self.hand.color
            },
            opacity: self.hand.brush.opacity,
            mode: if on_mask {
                BrushMode::Paint
            } else {
                self.hand.brush.mode
            },
            blend: if on_mask {
                BlendMode::Normal
            } else {
                self.hand.brush.blends()
            },
            per_dab_color: self.hand.brush.colours_dabs || self.stamps_colour(on_mask),
            on_mask,
        }
    }

    /// What the stroke builder is handed: the brush in hand, in the mode the stroke
    /// is committed in, and the colour it is committed with.
    pub open spec fn handed(self) -> StrokeStart {
        let style = self.gesture.stroke_style;
        StrokeStart {
            brush: in_mode(self.hand.brush, style.mode),
            red: style.color.r,
            green: style.color.g,
            blue: style.color.b,
        }
    }

    pub fn stroke_start(&self) -> (r: StrokeStart)
        ensures
            r == self.handed(),
    {
        let style = self.gesture.stroke_style;
        let mut brush = self.hand.brush;
        brush.mode = style.mode;
        StrokeStart { brush, red: style.color.r, green: style.color.g, blue: style.color.b }
    }

    /// Begin a stroke, unless the layer it would land on refuses one. Every route
    /// to a stroke arrives here, so every refusal is made here. `luminance` is
    /// how light the colour in hand is. Returns whether the stroke started; the
    /// pressure then starts afresh, and [`Self::stroke_start`] is what the dabs are
    /// made with.
    pub fn begin_stroke(&mut self, luminance: i64) -> (r: bool)
        requires
            old(self).page.layers.sound(),
        ensures
            r == old(self).takes_stroke(),
            !r ==> *final(self) == *old(self),
            r ==> {
                let (slot, on_mask) = target_of(
                    old(self).page.layers,
                    old(self).page.edit_target,
                )->0;
                *final(self) == (Editor {
                    gesture: crate::editor::document::Gesture {
                        interaction: Interaction::Drawing,
                        stroking: true,
                        stroke_style: old(self).style_of(on_mask, luminance),
                        stroke_stamps_colour: old(self).stamps_colour(on_mask),
                        stroke_slot: slot,
                        ..old(self).gesture
                    },
                    pressure: Pressure { fresh: true, ..old(self).pressure },
                    ..*old(self)
                })
            },
            r ==> {
                &&& final(self).gesture.stroke_style.opacity == old(self).hand.brush.opacity
                &&& final(self).gesture.stroke_style.on_mask == (old(self).page.edit_target
                    == EditTarget::Mask && old(self).page.layers.selected().mask is Some)
                &&& final(self).hand == old(self).hand
                &&& final(self).page == old(self).page
            },
            r ==> {
                let (_, on_mask) = target_of(
                    old(self).page.layers,
                    old(self).page.edit_target,
                )->0;
                let style = old(self).style_of(on_mask, luminance);
                final(self).handed() == (StrokeStart {
                    brush: in_mode(old(self).hand.brush, style.mode),
                    red: style.color.r,
                    green: style.color.g,
                    blue: style.color.b,
                })
            },
    {
        let (slot, on_mask): (u32, bool) = match stroke_target(
            &self.page.layers,
            self.page.edit_target,
        ) {
            Some(target) => target,
            None => return false,
        };
        let target = if on_mask {
            EditTarget::Mask
        } else {
            EditTarget::Layer
        };
        if self.page.layers.active_refusal(target).is_some() {
            return false;
        }
        let brush = self.hand.brush;
        let (color, mode) = if on_mask {
            mask_paint(brush.mode, luminance)
        } else {
            (self.hand.color, brush.mode)
        };
        let coloured = match self.hand.tip {
            Some(tip) => tip.coloured,
            None => false,
        };
        let stamps = matches!(mode, BrushMode::Paint) && !on_mask && coloured;
        self.gesture.stroke_stamps_colour = stamps;
        self.gesture.stroke_style = StrokeStyle {
            color,
            opacity: brush.opacity,
            mode,
            blend: if on_mask {
                BlendMode::Normal
            } else {
                brush.effective_blend()
            },
            per_dab_color: brush.colours_dabs || stamps,
            on_mask,
        };
        self.gesture.stroke_slot = slot;
        self.gesture.stroking = true;
        self.pressure.fresh = true;
        self.gesture.interaction = Interaction::Drawing;
        true
    }
}

/// A stroke lands on a mask only where there is one: a layer without is painted
/// itself.
pub proof fn the_edit_target_falls_back_to_the_layer(stack: Stack, target: EditTarget)
    requires
        stack.selected().mask is None,
    ensures
        target_of(stack, target) == target_of(stack, EditTarget::Layer),
{
}

/// A stroke on a mask is a grey in the normal mode, and never carries a tip's
/// own colour into it.
pub proof fn a_stroke_on_a_mask_is_a_grey(editor: Editor, luminance: i64)
    ensures
        ({
            let style = editor.style_of(true, luminance);
            &&& style.color.r == style.color.g == style.color.b
            &&& style.blend == BlendMode::Normal
            &&& style.mode == BrushMode::Paint
            &&& style.per_dab_color == editor.hand.brush.colours_dabs
        }),
{
}

/// A brush never reaches the pixels of a text layer, whatever the target says.
pub proof fn a_text_layer_refuses_a_stroke(editor: Editor)
    requires
        editor.page.layers.selected().text,
        editor.takes_stroke(),
    ensures
        target_of(editor.page.layers, editor.page.edit_target) matches Some((_, on_mask))
            && on_mask,
{
}

/// A stroke is made of the brush and the colours as they stood at the press. Its
/// opacity is the brush's, wherever it lands. On a layer it is the colour in hand
/// in the brush's own mode and blend, an eraser excepted, which has none to blend;
/// on a mask it is a solid grey, as light as the colour in hand where the brush
/// paints and white where it erases. Each dab has a colour of its own where the
/// brush asks for one, and where a coloured tip is painted onto a layer.
pub proof fn a_stroke_is_what_was_in_hand(editor: Editor, on_mask: bool, luminance: i64)
    ensures
        ({
            let hand = editor.hand;
            let style = editor.style_of(on_mask, luminance);
            let erases = hand.brush.mode == BrushMode::Erase;
            let coloured_tip = hand.tip is Some && hand.tip->0.coloured;
            &&& style.opacity == hand.brush.opacity
            &&& style.on_mask == on_mask
            &&& !on_mask ==> {
                &&& style.color == hand.color
                &&& style.mode == hand.brush.mode
                &&& erases ==> style.blend == BlendMode::Normal
                &&& !erases ==> style.blend == hand.brush.blend
            }
            &&& on_mask ==> {
                &&& style.mode == BrushMode::Paint
                &&& style.blend == BlendMode::Normal
                &&& style.color.r == style.color.g == style.color.b
                &&& style.color.r == if erases {
                    1_000_000
                } else {
                    luminance
                }
                &&& style.color.a == 1_000_000
            }
            &&& style.per_dab_color == (hand.brush.colours_dabs || (coloured_tip && !erases
                && !on_mask))
            &&& editor.stamps_colour(on_mask) == (coloured_tip && !erases && !on_mask)
        }),
{
}

/// A stroke lands on the selected layer's mask where the mask is asked for and
/// there is one, and otherwise on the layer's own pixels, if it has any.
pub proof fn a_stroke_lands_on_what_is_selected(stack: Stack, target: EditTarget)
    ensures
        ({
            let layer = stack.layers@[stack.active as int];
            let masked = target == EditTarget::Mask && layer.mask is Some;
            &&& masked ==> target_of(stack, target) == Some((layer.mask->0, true))
            &&& !masked && layer.slot is Some ==> target_of(stack, target) == Some(
                (layer.slot->0, false),
            )
            &&& !masked && layer.slot is None ==> target_of(stack, target) is None
        }),
{
}

/// A stroke starts unless the selected entry is a folder, is held fast by a lock
/// of its own or one around it, or holds text that the stroke would paint over.
pub proof fn a_stroke_starts_unless_it_is_refused(editor: Editor)
    ensures
        ({
            let stack = editor.page.layers;
            let layer = stack.layers@[stack.active as int];
            let on_mask = editor.page.edit_target == EditTarget::Mask && layer.mask is Some;
            editor.takes_stroke() == (layer.slot is Some && !fastened(
                stack.layers@,
                stack.active as int,
            ) && (on_mask || !layer.text))
        }),
{
}

/// The stroke builder is handed the brush in hand, in nothing changed but its
/// mode, and the colour the stroke is committed with.
pub proof fn a_stroke_is_handed_the_brush_it_began_with(editor: Editor)
    ensures
        ({
            let start = editor.handed();
            let style = editor.gesture.stroke_style;
            &&& start.brush.opacity == editor.hand.brush.opacity
            &&& start.brush.blend == editor.hand.brush.blend
            &&& start.brush.colours_dabs == editor.hand.brush.colours_dabs
            &&& start.brush.mode == style.mode
            &&& start.red == style.color.r
            &&& start.green == style.color.g
            &&& start.blue == style.color.b
        }),
{
}

} // verus!
