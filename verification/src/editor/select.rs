//! Drawing a selection: press, move, release, and what becomes of it.

use crate::editor::document::{Editor, Gesture};
use crate::editor::hand::BrushMode;
use crate::editor::session::{DocumentState, Selection};
use crate::editor::state::{Interaction, SelectionMode, SelectionOp, Tool, UiState};
use crate::geom::{max_of, Pos2, POINT};
use crate::ratio::{nearest_div, nearest_of};
use vstd::prelude::*;

verus! {

/// How near the first corner a click has to land to close a polygon, and how far
/// the pointer travels before the lasso records another place, in screen pixels
/// on the grid.
pub const SELECT_CLOSE_PIXELS: i64 = 100_000;

pub const SELECT_SAMPLE_PIXELS: i64 = 10_000;

/// How near a handle a press has to land, in screen pixels on the grid.
pub const HANDLE_GRAB_PIXELS: i64 = 80_000;

/// A screen distance in document pixels: divided by the zoom, which is never
/// taken to be less than a thousandth.
pub open spec fn in_document(distance: int, zoom: int) -> int {
    nearest_of(distance * POINT, max_of(zoom, 10))
}

pub fn document_distance(distance: i64, zoom: i64) -> (r: i64)
    requires
        0 <= distance <= 1_000_000_000,
    ensures
        r == in_document(distance as int, zoom as int),
        0 <= r,
{
    let by: i128 = if zoom >= 10 {
        zoom as i128
    } else {
        10
    };
    proof {
        let (n, d) = (distance * 10_000, by as int);
        assert(0 <= (2 * n + d) / (2 * d) <= 10_000_000_000_000) by (nonlinear_arith)
            requires
                d >= 10,
                0 <= n <= 10_000_000_000_000,
        ;
    }
    nearest_div((distance as i128) * 10_000, by) as i64
}

/// A selection outline being drawn, with every setting as it was at the press:
/// a polygon spans several clicks and must not change its mind between two.
#[derive(Clone, Copy, Debug, PartialEq, Eq, Structural)]
pub struct SelectionDraft {
    pub mode: SelectionMode,
    pub from: Pos2,
    pub op: SelectionOp,
    pub feather: i64,
    pub roundness: i64,
    pub stabiliser: i64,
}

pub open spec fn draft_of(ui: UiState, from: Pos2, op: SelectionOp) -> SelectionDraft {
    SelectionDraft {
        mode: ui.selection_mode,
        from,
        op,
        feather: ui.selection_feather,
        roundness: ui.selection_roundness,
        stabiliser: ui.selection_stabiliser,
    }
}

/// What is left of a gesture whose outline is abandoned.
pub open spec fn undrafted(gesture: Gesture) -> Gesture {
    Gesture {
        draft: None,
        interaction: if gesture.draft is Some {
            Interaction::Idle
        } else {
            gesture.interaction
        },
        ..gesture
    }
}

impl Gesture {
    /// Abandon the outline being drawn. Returns whether there was one.
    pub fn cancel_draft(&mut self) -> (r: bool)
        ensures
            r == old(self).draft is Some,
            *final(self) == undrafted(*old(self)),
    {
        let had = self.draft.is_some();
        self.draft = None;
        if had {
            self.interaction = Interaction::Idle;
        }
        had
    }
}

/// An outline that has been closed, and what it makes of the selection that
/// stood: nothing for a plain click, which deselects.
#[derive(Clone, Copy, Debug, PartialEq, Eq, Structural)]
pub struct Closed {
    pub combined: Option<Selection>,
}

impl Editor {
    /// How far the pointer must travel before the lasso records another place,
    /// read afresh every time because the wheel still zooms.
    pub fn lasso_step(&self) -> (r: i64)
        ensures
            r == in_document(SELECT_SAMPLE_PIXELS as int, self.page.camera.zoom as int),
    {
        document_distance(SELECT_SAMPLE_PIXELS, self.page.camera.zoom)
    }

    /// How near the first corner a click closes a polygon.
    pub fn close_distance(&self) -> (r: i64)
        ensures
            r == in_document(SELECT_CLOSE_PIXELS as int, self.page.camera.zoom as int),
    {
        document_distance(SELECT_CLOSE_PIXELS, self.page.camera.zoom)
    }

    /// How near a handle a press has to land.
    pub fn handle_tolerance(&self) -> (r: i64)
        ensures
            r == in_document(HANDLE_GRAB_PIXELS as int, self.page.camera.zoom as int),
    {
        document_distance(HANDLE_GRAB_PIXELS, self.page.camera.zoom)
    }

    /// What is left once an outline has been closed.
    pub open spec fn with_outline_closed(self, closed: Closed) -> Editor {
        Editor {
            gesture: Gesture { draft: None, interaction: Interaction::Idle, ..self.gesture },
            page: DocumentState { selection: closed.combined, ..self.page },
            ..self
        }
    }

    /// A press on the canvas with the selection tool in hand. The first begins
    /// an outline. Only a polygon sees another, and `closed` is what came of it
    /// where that one closed it.
    pub fn selection_press(&mut self, doc: Pos2, op: SelectionOp, closed: Option<Closed>)
        ensures
            *final(self) == match (old(self).gesture.draft, closed) {
                (Some(_), Some(shape)) => old(self).with_outline_closed(shape),
                (Some(_), None) => *old(self),
                (None, _) => Editor {
                    gesture: Gesture {
                        draft: Some(draft_of(old(self).ui, doc, op)),
                        interaction: Interaction::Selecting,
                        ..old(self).gesture
                    },
                    ..*old(self)
                },
            },
    {
        if self.gesture.draft.is_some() {
            if let Some(shape) = closed {
                self.finish_selection(shape);
            }
            return;
        }
        self.gesture.draft = Some(
            SelectionDraft {
                mode: self.ui.selection_mode,
                from: doc,
                op,
                feather: self.ui.selection_feather,
                roundness: self.ui.selection_roundness,
                stabiliser: self.ui.selection_stabiliser,
            },
        );
        self.gesture.interaction = Interaction::Selecting;
    }

    /// The pointer moved: how far it must have travelled for the outline being
    /// drawn to record it, where one is.
    pub fn selection_moved(&self) -> (r: Option<i64>)
        ensures
            match r {
                Some(step) => self.gesture.draft is Some && step == in_document(
                    SELECT_SAMPLE_PIXELS as int,
                    self.page.camera.zoom as int,
                ),
                None => self.gesture.draft is None,
            },
    {
        if self.gesture.draft.is_none() {
            return None;
        }
        Some(self.lasso_step())
    }

    /// The button came up, and `closed` is what came of the outline where that
    /// ends it. With no outline the button is what ends the gesture: nothing
    /// else would.
    pub fn selection_release(&mut self, closed: Option<Closed>)
        ensures
            *final(self) == match (old(self).gesture.draft, closed) {
                (Some(_), Some(shape)) => old(self).with_outline_closed(shape),
                (Some(_), None) => *old(self),
                (None, _) => Editor {
                    gesture: Gesture { interaction: Interaction::Idle, ..old(self).gesture },
                    ..*old(self)
                },
            },
    {
        if self.gesture.draft.is_none() {
            self.gesture.interaction = Interaction::Idle;
            return;
        }
        if let Some(shape) = closed {
            self.finish_selection(shape);
        }
    }

    /// Close the outline being drawn.
    pub fn finish_selection(&mut self, closed: Closed)
        ensures
            *final(self) == if old(self).gesture.draft is Some {
                old(self).with_outline_closed(closed)
            } else {
                *old(self)
            },
    {
        if self.gesture.draft.is_none() {
            return;
        }
        self.gesture.draft = None;
        self.gesture.interaction = Interaction::Idle;
        self.page.selection = closed.combined;
    }

    /// Abandon the outline being drawn, keeping what was selected. Returns
    /// whether there was one.
    pub fn cancel_selection_draft(&mut self) -> (r: bool)
        ensures
            r == old(self).gesture.draft is Some,
            *final(self) == (Editor { gesture: undrafted(old(self).gesture), ..*old(self) }),
    {
        self.gesture.cancel_draft()
    }

    /// Select the whole document again, which is what having no selection is.
    pub fn deselect(&mut self)
        ensures
            *final(self) == (Editor {
                gesture: undrafted(old(self).gesture),
                page: DocumentState { selection: None, ..old(self).page },
                ..*old(self)
            }),
    {
        self.page.selection = None;
        self.gesture.cancel_draft();
    }

    /// Select a tool, keeping the brush's mode in step. A half-drawn outline
    /// belongs to the tool that was drawing it.
    pub fn set_tool(&mut self, tool: Tool)
        ensures
            final(self).ui == (UiState { tool, ..old(self).ui }),
            final(self).gesture == if tool == Tool::Select {
                old(self).gesture
            } else {
                undrafted(old(self).gesture)
            },
            final(self).hand == old(self).hand.in_mode(mode_with(tool, old(self).hand.brush.mode)),
            final(self).shelf == old(self).shelf,
            final(self).page == old(self).page,
            final(self).session == old(self).session,
            final(self).viewport == old(self).viewport,
            final(self).notice == old(self).notice,
            final(self).layout == old(self).layout,
            final(self).quit_requested == old(self).quit_requested,
            final(self).frames == old(self).frames,
            final(self).pointer == old(self).pointer,
            final(self).pressure == old(self).pressure,
    {
        self.ui.take_up(tool);
        match tool {
            Tool::Select => {},
            _ => {
                self.gesture.cancel_draft();
            },
        }
        let mode: BrushMode = match tool {
            Tool::Brush => BrushMode::Paint,
            Tool::Eraser => BrushMode::Erase,
            Tool::Select
            | Tool::Transform
            | Tool::Eyedropper
            | Tool::Pan
            | Tool::Zoom => self.hand.brush.mode,
        };
        self.hand.set_mode(mode);
    }
}

/// The mode a brush is in once a tool has been taken up: the two that paint set
/// it, and no other touches it.
pub open spec fn mode_with(tool: Tool, mode: BrushMode) -> BrushMode {
    match tool {
        Tool::Brush => BrushMode::Paint,
        Tool::Eraser => BrushMode::Erase,
        _ => mode,
    }
}

/// An interaction is in `Selecting` only while there is an outline to answer for
/// it: abandoning one never leaves a gesture that nothing ends.
pub proof fn abandoning_ends_the_gesture(gesture: Gesture)
    requires
        gesture.interaction == Interaction::Selecting ==> gesture.draft is Some,
    ensures
        undrafted(gesture).interaction != Interaction::Selecting,
        undrafted(gesture).draft is None,
{
}

/// The closer the camera, the finer the step: a zoom no smaller never records
/// more coarsely.
pub proof fn a_closer_camera_records_a_finer_line(distance: int, zoom: int, closer: int)
    requires
        0 <= distance,
        zoom <= closer,
    ensures
        in_document(distance, closer) <= in_document(distance, zoom),
{
    let (n, d, e) = (distance * POINT, max_of(zoom, 10), max_of(closer, 10));
    let q = (2 * n + d) / (2 * d);
    assert(n >= 0) by (nonlinear_arith)
        requires
            distance >= 0,
            n == distance * POINT,
            POINT == 10_000,
    ;
    assert((2 * n + e) / (2 * e) <= q) by (nonlinear_arith)
        requires
            n >= 0,
            10 <= d <= e,
            q == (2 * n + d) / (2 * d),
    ;
}

/// A distance on the screen is the distance in the document times the zoom, to
/// half a step of the zoom: however the camera stands, the same reach of the hand
/// is asked for.
pub proof fn a_reach_is_the_same_on_the_screen_at_every_zoom(distance: int, zoom: int)
    requires
        0 <= distance,
        10 <= zoom,
    ensures
        ({
            let d = in_document(distance, zoom);
            -zoom <= 2 * (d * zoom - distance * 10_000) <= zoom
        }),
{
    let (n, q) = (distance * 10_000, in_document(distance, zoom));
    assert(distance * POINT == n) by (nonlinear_arith)
        requires
            POINT == 10_000,
            n == distance * 10_000,
    ;
    assert(-zoom <= 2 * (q * zoom - n) <= zoom) by (nonlinear_arith)
        requires
            q == (2 * n + zoom) / (2 * zoom),
            zoom > 0,
    ;
}

/// A polygon closes within ten pixels of its first corner, the lasso records a
/// place every pixel, and a handle is taken hold of within eight, all measured on
/// the screen.
pub proof fn reaches_are_in_screen_pixels(zoom: int)
    requires
        10 <= zoom,
    ensures
        -zoom <= 2 * (in_document(SELECT_CLOSE_PIXELS as int, zoom) * zoom - 1_000_000_000) <= zoom,
        -zoom <= 2 * (in_document(SELECT_SAMPLE_PIXELS as int, zoom) * zoom - 100_000_000) <= zoom,
        -zoom <= 2 * (in_document(HANDLE_GRAB_PIXELS as int, zoom) * zoom - 800_000_000) <= zoom,
{
    a_reach_is_the_same_on_the_screen_at_every_zoom(SELECT_CLOSE_PIXELS as int, zoom);
    a_reach_is_the_same_on_the_screen_at_every_zoom(SELECT_SAMPLE_PIXELS as int, zoom);
    a_reach_is_the_same_on_the_screen_at_every_zoom(HANDLE_GRAB_PIXELS as int, zoom);
}

/// An outline is drawn with the settings that stood at its press, from the place
/// pressed.
pub proof fn an_outline_keeps_the_settings_of_its_press(ui: UiState, from: Pos2, op: SelectionOp)
    ensures
        ({
            let draft = draft_of(ui, from, op);
            &&& draft.mode == ui.selection_mode
            &&& draft.from == from
            &&& draft.op == op
            &&& draft.feather == ui.selection_feather
            &&& draft.roundness == ui.selection_roundness
            &&& draft.stabiliser == ui.selection_stabiliser
        }),
{
}

/// Abandoning an outline leaves a stroke and a float in hand as they are, and
/// touches no gesture that has no outline.
pub proof fn abandoning_touches_only_the_outline(gesture: Gesture)
    ensures
        ({
            let after = undrafted(gesture);
            &&& after.draft is None
            &&& after.float == gesture.float
            &&& after.stroking == gesture.stroking
            &&& after.stroke_style == gesture.stroke_style
            &&& after.stroke_stamps_colour == gesture.stroke_stamps_colour
            &&& after.stroke_slot == gesture.stroke_slot
            &&& gesture.draft is None ==> after.interaction == gesture.interaction
            &&& gesture.draft is Some ==> after.interaction == Interaction::Idle
        }),
{
}

/// Closing an outline selects what came of it, ends the gesture, and changes
/// nothing else of the document or the hand.
pub proof fn closing_an_outline_selects_what_came_of_it(editor: Editor, closed: Closed)
    ensures
        ({
            let after = editor.with_outline_closed(closed);
            &&& after.page.selection == closed.combined
            &&& after.gesture.draft is None
            &&& after.gesture.interaction == Interaction::Idle
            &&& after.gesture.float == editor.gesture.float
            &&& after.page.layers == editor.page.layers
            &&& after.page.history == editor.page.history
            &&& after.page.doc == editor.page.doc
            &&& after.page.camera == editor.page.camera
            &&& after.hand == editor.hand
            &&& after.session == editor.session
        }),
{
}

/// The brush paints and the eraser erases; every other tool leaves the brush's
/// mode as it was, so that the one taken up before is found again.
pub proof fn a_tool_sets_the_mode_only_if_it_paints(tool: Tool, mode: BrushMode)
    ensures
        tool == Tool::Brush ==> mode_with(tool, mode) == BrushMode::Paint,
        tool == Tool::Eraser ==> mode_with(tool, mode) == BrushMode::Erase,
        tool != Tool::Brush && tool != Tool::Eraser ==> mode_with(tool, mode) == mode,
{
}

} // verus!
