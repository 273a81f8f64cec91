//! What the editor answers by asking one of its parts.

use crate::colorpicker::slider::taken_over;
use crate::colour::Hsv;
use crate::editor::document::{changed, Editor, Pressure};
use crate::editor::hand::{Brush, Color, Hand, Mask};
use crate::editor::layers::{draws_of, painted_below, LayerDraw, LayerEffects};
use crate::editor::session::{Camera, DocumentState, Session, Tab};
use crate::editor::state::Surroundings;
use crate::editor::stroke::target_of;
use crate::editor::view::{on_screen, Sample, Viewport};
use crate::geom::{max_of, Pos2};
use crate::root::root_of;
use vstd::prelude::*;

verus! {

impl Editor {
    // --- the pointer -----------------------------------------------------------------

    /// Read the pointer, where it and the cursor of the reading before come to in
    /// the document. A pressure is made of the reading, and the model that makes it
    /// goes by what it has read.
    pub fn sample(&mut self, now: u64, doc: Pos2, before: Pos2) -> (r: Sample)
        requires
            doc.in_reach(),
            before.in_reach(),
        ensures
            r.at == doc,
            r.distance == root_of(
                (doc.x - before.x) * (doc.x - before.x) + (doc.y - before.y) * (doc.y - before.y),
            ),
            r.elapsed == max_of(now - old(self).viewport.sampled, 0),
            *final(self) == (Editor {
                viewport: Viewport { sampled: now, ..old(self).viewport },
                pressure: Pressure { fresh: false, ..old(self).pressure },
                ..*old(self)
            }),
    {
        self.pressure.fresh = false;
        self.viewport.sample(now, doc, before)
    }

    /// Whether every pressure will be the whole of it, which is worth telling.
    pub fn pressure_is_flat(&self) -> (r: bool)
        ensures
            r == self.pressure.constant,
    {
        self.pressure.constant
    }

    /// Physical pixels to points.
    pub fn to_points(&self, screen: Pos2) -> (r: Pos2)
        requires
            on_screen(screen),
        ensures
            r == self.viewport.point_of(screen),
    {
        self.viewport.to_points(screen)
    }

    /// Whether the layout, rather than the canvas, owns the pointer.
    pub fn layout_owns_pointer(&self, screen: Pos2) -> (r: bool)
        requires
            on_screen(screen),
        ensures
            r == self.layout@.blocks(self.viewport.point_of(screen)),
    {
        self.viewport.layout_owns_pointer(&self.layout, screen)
    }

    /// Whether one of the controls inside the canvas region owns the pointer.
    pub fn canvas_overlay_owns_pointer(&self, screen: Pos2) -> (r: bool)
        requires
            on_screen(screen),
        ensures
            r == self.viewport.overlaid(screen),
    {
        self.viewport.canvas_overlay_owns_pointer(screen)
    }

    /// Whether a press would land on the canvas.
    pub fn pointer_over_canvas(&self, screen: Pos2) -> (r: bool)
        requires
            self.viewport.sound(),
            on_screen(screen),
        ensures
            r == self.viewport.over_canvas(self.layout@, screen),
    {
        self.viewport.pointer_over_canvas(&self.layout, screen)
    }

    /// Where the dot that stands for a pen goes, if it is drawn.
    pub fn pen_dot(&self, around: Surroundings) -> (r: Option<Pos2>)
        requires
            self.viewport.sound(),
        ensures
            r == self.viewport.dot(self.layout@, around),
    {
        self.viewport.pen_dot(&self.layout, around)
    }

    /// Whether a press would take a colour.
    pub fn aiming_pick(&self, around: Surroundings) -> (r: bool)
        requires
            self.viewport.sound(),
        ensures
            r == self.viewport.aimed(
                self.layout@,
                self.ui.tool,
                self.gesture.interaction,
                around,
            ),
    {
        self.viewport.aiming_pick(&self.layout, self.ui.tool, self.gesture.interaction, around)
    }

    /// Show the whole document. `fitted` is the camera that does.
    pub fn fit_view(&mut self, fitted: Camera)
        ensures
            *final(self) == (Editor {
                page: DocumentState { camera: fitted, ..old(self).page },
                ..*old(self)
            }),
    {
        self.page.camera = fitted;
    }

    /// Zoom about the centre of the canvas region, to a zoom the camera allows.
    /// There is no pointer to anchor on, so what is in the middle stays there.
    pub fn zoom_by(&mut self, zoom: i64)
        ensures
            *final(self) == (Editor {
                page: DocumentState {
                    camera: Camera { center: old(self).page.camera.center, zoom },
                    ..old(self).page
                },
                ..*old(self)
            }),
    {
        self.page.camera.zoom = zoom;
    }

    // --- what is in hand ---------------------------------------------------------------

    /// Take the colour the picker holds. `mixed` is what its hue, saturation and
    /// value come to.
    pub fn commit_picker(&mut self, mixed: Color)
        ensures
            *final(self) == (Editor {
                hand: Hand { color: mixed, ..old(self).hand },
                ..*old(self)
            }),
    {
        self.hand.color = mixed;
    }

    /// The colour text is set in: `editing` is that of the record being edited,
    /// if one is.
    pub fn text_colour(&self, editing: Option<Color>) -> (r: Color)
        ensures
            r == match editing {
                Some(colour) => colour,
                None => self.hand.color,
            },
    {
        self.hand.text_colour(editing)
    }

    /// Point the picker at a colour chosen elsewhere, keeping the hue for a grey.
    pub fn set_color(&mut self, color: Color, next: Hsv)
        ensures
            *final(self) == (Editor {
                hand: Hand { color, hsv: taken_over(old(self).hand.hsv, next), ..old(self).hand },
                ..*old(self)
            }),
    {
        self.hand.set_color(color, next);
    }

    /// Swap foreground and background.
    pub fn swap_colors(&mut self, next: Hsv)
        ensures
            *final(self) == (Editor {
                hand: Hand {
                    color: old(self).hand.secondary,
                    secondary: old(self).hand.color,
                    hsv: taken_over(old(self).hand.hsv, next),
                    ..old(self).hand
                },
                ..*old(self)
            }),
    {
        self.hand.swap_colors(next);
    }

    /// Load a brush preset by its place on the shelf, keeping the paint or erase
    /// mode. A place past the end changes nothing.
    pub fn apply_preset(&mut self, index: usize)
        ensures
            index >= old(self).shelf.presets@.len() ==> *final(self) == *old(self),
            index < old(self).shelf.presets@.len() ==> {
                let preset = old(self).shelf.presets@[index as int];
                *final(self) == (Editor {
                    hand: Hand {
                        brush: Brush { mode: old(self).hand.brush.mode, ..preset.brush },
                        tip: match preset.tip {
                            Some(name) => old(self).shelf.tips.resolved(name@),
                            None => None,
                        },
                        tip_name: preset.tip,
                        paper_name: preset.paper,
                        active_preset: Some(index),
                        ..old(self).hand
                    },
                    ..*old(self)
                })
            },
    {
        self.hand.apply_preset(&self.shelf.presets, index, &self.shelf.tips);
    }

    /// The tile the brush paints through: the one named, and the shipped pattern
    /// where none is.
    pub fn paper_tile(&self, pattern: &str) -> (r: Option<Mask>)
        ensures
            r == self.hand.paper(self.shelf.papers, pattern@),
    {
        self.hand.paper_tile(&self.shelf.papers, pattern)
    }

    /// Choose the paper by name, or go back to the shipped set.
    pub fn set_paper(&mut self, name: Option<String>)
        ensures
            *final(self) == (Editor {
                hand: Hand { paper_name: name, ..old(self).hand },
                ..*old(self)
            }),
    {
        self.hand.set_paper(name);
    }

    /// Put a bitmap tip in the brush's hand, by name where it has one.
    pub fn set_tip(&mut self, mask: Mask, name: Option<String>)
        ensures
            *final(self) == (Editor {
                hand: Hand { tip: Some(mask), tip_name: name, ..old(self).hand },
                ..*old(self)
            }),
    {
        self.hand.set_tip(mask, name);
    }

    /// Take the bitmap tip off the brush in hand, its name with it.
    pub fn clear_tip(&mut self)
        ensures
            *final(self) == (Editor {
                hand: Hand { tip: None, tip_name: None, ..old(self).hand },
                ..*old(self)
            }),
    {
        self.hand.clear_tip();
    }

    // --- the documents -----------------------------------------------------------------

    /// The live document has changed, so closing it would lose work.
    pub fn mark_modified(&mut self)
        requires
            old(self).sound(),
        ensures
            final(self).session.active == old(self).session.active,
            final(self).session.tabs@ == changed(old(self).session),
            *final(self) == (Editor { session: final(self).session, ..*old(self) }),
            final(self).sound(),
    {
        self.session.mark_modified();
    }

    /// The live document has been written to a path.
    pub fn mark_saved(&mut self, path: String)
        requires
            old(self).sound(),
        ensures
            final(self).session.active == old(self).session.active,
            final(self).session.tabs@ == old(self).session.tabs@.update(
                old(self).session.active as int,
                Tab {
                    modified: false,
                    path: Some(path),
                    ..old(self).session.tabs@[old(self).session.active as int]
                },
            ),
            *final(self) == (Editor { session: final(self).session, ..*old(self) }),
            final(self).sound(),
    {
        self.session.mark_saved(path);
    }

    /// Every open document that would lose something if it went now, as tab
    /// positions.
    pub fn unsaved_documents(&self) -> (r: Vec<usize>)
        ensures
            r@ == Session::unsaved_within(self.session.tabs@, self.session.tabs@.len() as int),
    {
        self.session.unsaved_documents()
    }

    // --- the layers --------------------------------------------------------------------

    /// Where a stroke would go: the slice, and whether it is a mask.
    pub fn stroke_target(&self) -> (r: Option<(u32, bool)>)
        requires
            self.page.layers.sound(),
        ensures
            r == target_of(self.page.layers, self.page.edit_target),
    {
        crate::editor::stroke::stroke_target(&self.page.layers, self.page.edit_target)
    }

    /// Whether the interface shows the mask as the thing being painted.
    pub fn editing_mask(&self) -> (r: bool)
        requires
            self.page.layers.sound(),
        ensures
            r == (target_of(self.page.layers, self.page.edit_target) matches Some((_, mask))
                && mask),
    {
        crate::editor::stroke::editing_mask(&self.page.layers, self.page.edit_target)
    }

    /// The stack flattened for the composite, bottom up, each draw with the layer
    /// whose effects go with it. `float` is a slice being moved about and the one
    /// it is previewed in.
    pub fn effected_draws(&self, float: Option<(u32, u32)>) -> (r: Vec<LayerEffects>)
        ensures
            r@ == draws_of(
                self.page.layers.layers@,
                self.page.layers.layers@.len() as int,
                float,
            ),
    {
        self.page.layers.effected_draws(float)
    }

    /// The same draws without the effects.
    pub fn layer_draws(&self, float: Option<(u32, u32)>) -> (r: Vec<LayerDraw>)
        ensures
            r@ == draws_of(
                self.page.layers.layers@,
                self.page.layers.layers@.len() as int,
                float,
            ).map_values(|e: LayerEffects| e.draw),
    {
        self.page.layers.layer_draws(float)
    }

    /// The lowest slice a baked effect may take. `claimed` is how many the
    /// document's layers have.
    pub fn effect_slot_base(&self, claimed: u32) -> (r: u32)
        requires
            claimed < u32::MAX,
        ensures
            r == claimed + 1,
    {
        crate::editor::layers::effect_slot_base(claimed)
    }

    /// Where the selected layer sits among the draws, and a place past the end of
    /// any list for a folder.
    pub fn active_draw_index(&self) -> (r: u32)
        requires
            self.page.layers.sound(),
        ensures
            r == (if self.page.layers.selected().folder() {
                u32::MAX as int
            } else {
                painted_below(self.page.layers.layers@, self.page.layers.active as int)
            }),
    {
        self.page.layers.active_draw_index()
    }
}

} // verus!
