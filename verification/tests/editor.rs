//! What each thing the artist does makes of the editor.

use umber_app::colour::Hsv;
use umber_app::dock::layout::Layout;
use umber_app::editor::document::{Editor, Grant, Start};
use umber_app::editor::hand::{
    find, Brush, BrushMode, BrushPreset, Color, Library, Mask, Named, Shelf,
};
use umber_app::editor::history::{
    restore_shape, Edit, EditBody, EditKind, History, StackShape,
};
use umber_app::editor::layers::{
    copy_layers, BlendMode, EditTarget, Layer, LayerDraw, Refusal, Stack,
};
use umber_app::editor::select::{Closed, SelectionDraft};
use umber_app::editor::session::{Camera, Document, DocumentState, PixelRect, Selection};
use umber_app::editor::state::{
    text_layers, Interaction, SelectionMode, SelectionOp, SettingsTab, StepGate, Surroundings,
    ThemeKind, Tool, UiState, FLIP_LOCKED_REASON,
};
use umber_app::editor::stroke::{mask_paint, StrokeStyle};
use umber_app::editor::transform::{Floating, Handle};
use umber_app::geom::{Pos2, Rect, Vec2, POINT};
use umber_app::ratio::WHOLE;

fn pt(v: f64) -> i64 {
    (v * POINT as f64).round() as i64
}

fn pos2(x: f64, y: f64) -> Pos2 {
    Pos2 { x: pt(x), y: pt(y) }
}

fn share(v: f64) -> i64 {
    (v * WHOLE as f64).round() as i64
}

fn color(r: f64, g: f64, b: f64) -> Color {
    Color { r: share(r), g: share(g), b: share(b), a: WHOLE }
}

fn layer(id: u32, slot: u32) -> Layer {
    Layer {
        id,
        name: format!("Layer {id}"),
        slot: Some(slot),
        mask: None,
        parent: None,
        visible: true,
        locked: false,
        clipped: false,
        opacity: WHOLE,
        blend: BlendMode::Normal,
        text: false,
    }
}

fn folder(id: u32) -> Layer {
    Layer { slot: None, name: format!("Group {id}"), ..layer(id, 0) }
}

fn doc(width: u32, height: u32) -> Document {
    Document { width, height, settings: 0 }
}

const NEAR_BLACK: Hsv = Hsv { h: 2_400_000, s: 166_667, v: 94_118 };

fn editor() -> Editor {
    let brush = Brush {
        mode: BrushMode::Paint,
        blend: BlendMode::Normal,
        opacity: WHOLE,
        colours_dabs: false,
    };
    let start = color(0.01, 0.01, 0.01);
    Editor::new(
        Start {
            doc: doc(1000, 800),
            tab: 1,
            title: "Untitled 1".to_string(),
            layer: layer(1, 0),
            brush,
            color: start,
            hsv: NEAR_BLACK,
            style: StrokeStyle {
                color: start,
                opacity: WHOLE,
                mode: BrushMode::Paint,
                blend: BlendMode::Normal,
                per_dab_color: false,
                on_mask: false,
            },
            shelf: Shelf {
                presets: Vec::new(),
                tips: Library { mine: Vec::new(), shipped: Vec::new() },
                papers: Library { mine: Vec::new(), shipped: Vec::new() },
            },
            constant_pressure: false,
        },
        None,
    )
}

/// A stack with a folder holding the top two of three layers.
fn with_a_folder() -> Editor {
    let mut ed = editor();
    let inside = |id: u32, slot: u32| Layer { parent: Some(9), ..layer(id, slot) };
    ed.page.layers = Stack {
        layers: vec![layer(1, 0), inside(2, 1), inside(3, 2), folder(9)],
        active: 2,
    };
    ed
}

/// What a new layer is given: a place above the rest, a name and a slice.
fn granted(ed: &Editor) -> Option<Grant> {
    let layers = &ed.page.layers.layers;
    let id = layers.iter().map(|l| l.id).max().unwrap_or(0) + 1;
    let slot = layers.iter().filter_map(|l| l.slot).max().unwrap_or(0) + 1;
    Some(Grant { at: ed.page.layers.active + 1, parent: None, id, slot })
}

fn place(ed: &mut Editor, name: &str) -> umber_app::editor::transform::MadeLayer {
    let grant = granted(ed);
    ed.make_text_layer(name.to_string(), grant).expect("room for one")
}

fn shape(stack: &Stack) -> StackShape {
    StackShape { layers: copy_layers(&stack.layers), active: stack.active }
}

fn mask(id: u64) -> Mask {
    Mask { id, coloured: false }
}

fn named(name: &str, id: u64) -> Named {
    Named { name: name.to_string(), mask: mask(id) }
}

// --- what is in hand ---------------------------------------------------------------

/// Every state a paper name can be in. A name that resolves to nothing paints
/// flat, and never through a stranger's tile.
#[test]
fn a_paper_name_resolves_to_the_users_tile_then_umbers_then_to_nothing_at_all() {
    let mut ed = editor();
    ed.shelf.papers = Library {
        mine: vec![],
        shipped: vec![named("grit", 1), named("canvas", 2)],
    };

    // No name: whichever the brush's own pattern says.
    assert_eq!(ed.paper_tile("grit"), Some(mask(1)));

    // A name that is shipped.
    ed.set_paper(Some("canvas".to_owned()));
    assert_eq!(ed.paper_tile("grit"), Some(mask(2)));

    // The user's library first.
    ed.shelf.papers.mine.push(named("canvas", 7));
    assert_eq!(ed.paper_tile("grit"), Some(mask(7)));

    // And a name behind nothing at all.
    ed.set_paper(Some("gone".to_owned()));
    assert!(
        ed.paper_tile("grit").is_none(),
        "an unresolvable paper must paint flat, not through a stranger's tile"
    );
    assert_eq!(find(&ed.shelf.papers.shipped, "canvas"), Some(mask(2)));
}

/// Selecting a brush carries its paper, and carries the absence of one.
#[test]
fn selecting_a_brush_takes_its_paper_and_drops_the_last_ones() {
    let mut ed = editor();
    let preset = |paper: Option<&str>| BrushPreset {
        brush: ed.hand.brush,
        tip: None,
        paper: paper.map(str::to_owned),
    };
    ed.shelf.presets = vec![preset(Some("linen")), preset(None)];

    ed.apply_preset(0);
    assert_eq!(ed.hand.paper_name.as_deref(), Some("linen"));
    ed.apply_preset(1);
    assert!(ed.hand.paper_name.is_none());
}

/// A preset keeps the mode the tool is in, and the name of a tip whether or not
/// the tip is here.
#[test]
fn selecting_a_brush_keeps_the_eraser_an_eraser() {
    let mut ed = editor();
    ed.set_tool(Tool::Eraser);
    let brush = Brush { opacity: share(0.5), ..ed.hand.brush };
    ed.shelf.presets = vec![BrushPreset {
        brush: Brush { mode: BrushMode::Paint, ..brush },
        tip: Some("star".to_owned()),
        paper: None,
    }];
    ed.apply_preset(0);
    assert_eq!(ed.hand.brush.mode, BrushMode::Erase);
    assert_eq!(ed.hand.brush.opacity, share(0.5));
    assert!(ed.hand.tip.is_none());
    assert_eq!(ed.hand.tip_name.as_deref(), Some("star"));
    assert_eq!(ed.hand.active_preset, Some(0));

    ed.shelf.tips = Library { mine: vec![], shipped: vec![named("star", 4)] };
    ed.apply_preset(0);
    assert_eq!(ed.hand.tip, Some(mask(4)));
    ed.clear_tip();
    assert!(ed.hand.tip.is_none() && ed.hand.tip_name.is_none());
    ed.set_tip(mask(8), None);
    assert_eq!(ed.hand.tip, Some(mask(8)));

    // There is no tenth brush.
    let before = ed.hand.active_preset;
    ed.apply_preset(9);
    assert_eq!(ed.hand.active_preset, before);
}

/// A grey takes the saturation and the value, and leaves the hue.
#[test]
fn choosing_a_grey_keeps_the_hue() {
    let mut ed = editor();
    ed.set_color(color(0.0, 1.0, 0.0), Hsv { h: 1_200_000, s: WHOLE, v: WHOLE });
    assert_eq!(ed.hand.hsv.h, 1_200_000);
    ed.set_color(color(0.5, 0.5, 0.5), Hsv { h: 0, s: 0, v: share(0.5) });
    assert_eq!(ed.hand.hsv, Hsv { h: 1_200_000, s: 0, v: share(0.5) });

    // And the swap is its own undoing.
    let (front, back) = (ed.hand.color, ed.hand.secondary);
    ed.swap_colors(Hsv { h: 0, s: 0, v: WHOLE });
    assert_eq!((ed.hand.color, ed.hand.secondary), (back, front));
    ed.swap_colors(Hsv { h: 0, s: 0, v: share(0.5) });
    assert_eq!((ed.hand.color, ed.hand.secondary), (front, back));
}

#[test]
fn a_caption_keeps_its_own_colour_while_it_is_edited() {
    let ed = editor();
    assert_eq!(ed.text_colour(None), ed.hand.color);
    assert_eq!(ed.text_colour(Some(color(1.0, 0.0, 0.0))), color(1.0, 0.0, 0.0));
}

// --- where the pointer is --------------------------------------------------------------

/// Every canvas overlay takes the pointer off the canvas: the scrollbars, the
/// transform's flip pair and the selection's strip.
#[test]
fn every_canvas_overlay_takes_the_pointer_off_the_canvas() {
    // A canvas region filling a 1000 x 800 window, points and pixels alike.
    let region = |ed: &mut Editor| {
        ed.viewport.pixels_per_point = POINT;
        ed.viewport.canvas_pivot = pos2(500.0, 400.0);
        ed.viewport.canvas_size = Vec2 { x: pt(1000.0), y: pt(800.0) };
    };
    let middle = pos2(500.0, 400.0);
    let mut bare = editor();
    region(&mut bare);
    assert!(
        bare.pointer_over_canvas(middle),
        "open canvas has to belong to the document"
    );

    let at = Rect { min: pos2(480.0, 380.0), max: pos2(520.0, 420.0) };
    for (name, which) in [
        ("a scrollbar", 0usize),
        ("a transform flip button", 1),
        ("a selection button", 2),
    ] {
        let mut ed = editor();
        region(&mut ed);
        match which {
            0 => ed.viewport.scroll_bars.0 = Some(at),
            1 => ed.viewport.transform_buttons.1 = Some(at),
            _ => ed.viewport.selection_buttons.2 = Some(at),
        }
        assert!(
            ed.canvas_overlay_owns_pointer(middle),
            "{name} did not claim the pointer"
        );
        assert!(
            !ed.pointer_over_canvas(middle),
            "a press on {name} would also reach the canvas"
        );
        // And only where it actually is.
        assert!(
            ed.pointer_over_canvas(pos2(100.0, 100.0)),
            "{name} claimed canvas it does not cover"
        );
    }
}

/// An editor in a 1000 x 800 window whose canvas region starts below a 30 pixel
/// menu bar, and which no pointer event has touched.
fn windowed() -> Editor {
    let mut ed = editor();
    ed.viewport.pixels_per_point = POINT;
    ed.viewport.canvas_pivot = pos2(500.0, 415.0);
    ed.viewport.canvas_size = Vec2 { x: pt(1000.0), y: pt(770.0) };
    ed.layout = Layout::default();
    ed
}

/// The ordinary case: focused, with nothing drawn over the pointer.
fn clear() -> Surroundings {
    Surroundings { over_area: false, focused: true }
}

fn aiming(ed: &Editor, around: Surroundings) -> bool {
    ed.aiming_pick(around)
}

fn dot(ed: &Editor, around: Surroundings) -> Option<Pos2> {
    ed.pen_dot(around)
}

#[test]
fn a_pick_is_only_aimed_when_no_other_gesture_holds_the_pointer() {
    let mut ed = windowed();
    ed.ui.tool = Tool::Eyedropper;
    ed.viewport.cursor = pos2(500.0, 400.0);
    assert!(
        ed.pointer_over_canvas(ed.viewport.cursor),
        "the fixture aims at canvas"
    );

    assert!(aiming(&ed, clear()), "idle over the canvas is the hover");
    ed.gesture.interaction = Interaction::Picking;
    assert!(aiming(&ed, clear()), "and the drag itself keeps the crosshair");
    for busy in [
        Interaction::Drawing,
        Interaction::Selecting,
        Interaction::Panning,
        Interaction::Zooming,
    ] {
        ed.gesture.interaction = busy;
        assert!(!aiming(&ed, clear()), "{busy:?} is another gesture");
    }
}

#[test]
fn nothing_but_the_eyedropper_over_the_canvas_aims_a_pick() {
    let mut ed = windowed();
    ed.ui.tool = Tool::Eyedropper;
    ed.viewport.cursor = pos2(500.0, 400.0);
    assert!(aiming(&ed, clear()));

    // A menu, a dropdown or a modal over the pointer.
    assert!(!aiming(&ed, Surroundings { over_area: true, focused: true }));
    // Another application has the keyboard.
    assert!(!aiming(&ed, Surroundings { over_area: false, focused: false }));
    // Over a panel.
    ed.viewport.cursor = pos2(500.0, 5.0);
    assert!(
        !ed.pointer_over_canvas(ed.viewport.cursor),
        "the menu bar, not canvas"
    );
    assert!(!aiming(&ed, clear()));
    // And any other tool.
    ed.viewport.cursor = pos2(500.0, 400.0);
    ed.ui.tool = Tool::Brush;
    assert!(!aiming(&ed, clear()));
}

/// A hovering pen must reach the dot with no mouse event behind it.
#[test]
fn a_hovering_pen_asks_for_its_own_cursor_with_no_mouse_event_behind_it() {
    let mut ed = windowed();
    assert_eq!(
        ed.viewport.cursor,
        pos2(0.0, 0.0),
        "the point of this test is that no mouse event has moved it"
    );
    assert_eq!(dot(&ed, clear()), None, "a mouse keeps the desktop's own arrow");

    // A pen is driving, but the hover never wrote the cursor.
    ed.viewport.pen_pointer = true;
    assert!(
        !ed.pointer_over_canvas(pos2(0.0, 0.0)),
        "the fixture has to put the origin off the canvas or it proves nothing"
    );
    assert_eq!(
        dot(&ed, clear()),
        None,
        "a stale cursor must not be read as a pen over the canvas"
    );

    // And what a hover actually leaves behind.
    let at = pos2(620.0, 310.0);
    ed.viewport.cursor = at;
    assert_eq!(
        dot(&ed, clear()),
        Some(at),
        "a pen hovering over the canvas has to get the dot, at the nib"
    );
}

/// A pen over a modal, a menu or a dropdown keeps the ordinary cursor.
#[test]
fn a_pen_over_a_dialog_keeps_the_ordinary_cursor() {
    let mut ed = windowed();
    ed.viewport.pen_pointer = true;
    ed.viewport.cursor = pos2(500.0, 415.0);

    assert!(
        dot(&ed, clear()).is_some(),
        "the same point with nothing over it is the dot's"
    );
    assert_eq!(
        dot(&ed, Surroundings { over_area: true, ..clear() }),
        None,
        "a pen over a modal must keep a pointer it can aim with"
    );
}

/// An unfocused window asks for nothing.
#[test]
fn an_unfocused_window_puts_the_cursor_back() {
    let mut ed = windowed();
    ed.viewport.pen_pointer = true;
    ed.viewport.cursor = pos2(500.0, 415.0);
    assert!(dot(&ed, clear()).is_some(), "focused, the dot is right");
    assert_eq!(
        dot(&ed, Surroundings { focused: false, ..clear() }),
        None,
        "an unfocused window must ask for a real cursor, not for none"
    );
}

/// Over a panel and over a canvas overlay the ordinary cursor is the right one.
#[test]
fn a_pen_over_something_to_point_at_keeps_the_ordinary_cursor() {
    let mut ed = windowed();
    ed.viewport.pen_pointer = true;

    ed.viewport.cursor = pos2(500.0, 400.0);
    assert!(dot(&ed, clear()).is_some(), "open canvas is the dot's");

    ed.viewport.cursor = pos2(1400.0, 400.0);
    assert_eq!(
        dot(&ed, clear()),
        None,
        "a pen outside the canvas region keeps the arrow"
    );

    // A docked panel proper: inside the window, claimed by the layout.
    let mut docked = windowed();
    docked.viewport.pen_pointer = true;
    docked.viewport.canvas_size = Vec2 { x: pt(736.0), y: pt(770.0) };
    docked.viewport.canvas_pivot = pos2(368.0, 415.0);
    docked.viewport.cursor = pos2(900.0, 400.0);
    assert_eq!(
        dot(&docked, clear()),
        None,
        "a pen over a docked panel keeps the arrow"
    );

    // Inside the region, over one of the canvas's own controls.
    ed.viewport.cursor = pos2(500.0, 400.0);
    ed.viewport.selection_buttons.0 =
        Some(Rect { min: pos2(480.0, 380.0), max: pos2(520.0, 420.0) });
    assert_eq!(
        dot(&ed, clear()),
        None,
        "a pen over a canvas overlay keeps the arrow"
    );
}

/// A screen twice as dense halves a position in points.
#[test]
fn a_dense_screen_has_fewer_points() {
    let mut ed = windowed();
    ed.viewport.pixels_per_point = 2 * POINT;
    assert_eq!(ed.to_points(pos2(620.0, 310.0)), pos2(310.0, 155.0));
}

// --- the history -----------------------------------------------------------------------

/// A lock refuses a step over a canvas flip, in both directions, and refuses
/// nothing else.
#[test]
fn a_lock_refuses_a_step_over_a_flip_and_over_nothing_else() {
    let edit = |kind: EditKind| Edit { kind, body: EditBody::Flip };
    for kind in [
        EditKind::Paint,
        EditKind::Erase,
        EditKind::Transform,
        EditKind::AddLayer,
        EditKind::MoveLayer,
        EditKind::FlipHorizontal,
        EditKind::FlipVertical,
        EditKind::Other(3),
    ] {
        let flip = kind.flip_axis().is_some();
        let mut ed = editor();
        ed.page.history.record(edit(kind));

        let open = if flip { StepGate::SettleForFlip } else { StepGate::Clear };
        let shut = if flip { StepGate::FlipLocked } else { StepGate::Clear };
        assert_eq!(ed.undo_gate(), open, "unlocked, undo over {kind:?}");
        ed.page.layers.layers[0].locked = true;
        assert_eq!(ed.undo_gate(), shut, "locked, undo over {kind:?}");

        // Onto the redo stack the way the application puts it there.
        ed.page.layers.layers[0].locked = false;
        let entry = ed.page.history.take_undo().expect("the entry just recorded");
        ed.page.history.push_redo(entry);
        assert_eq!(ed.redo_gate(), open, "unlocked, redo over {kind:?}");
        ed.page.layers.layers[0].locked = true;
        assert_eq!(ed.redo_gate(), shut, "locked, redo over {kind:?}");
    }

    // An empty stack is clear.
    let mut ed = editor();
    ed.page.layers.layers[0].locked = true;
    assert_eq!(ed.undo_gate(), StepGate::Clear, "nothing to undo");
    assert_eq!(ed.redo_gate(), StepGate::Clear, "nothing to redo");

    // Which end of the stack decides, with the two stacks loaded with
    // opposite contents.
    let mut ed = editor();
    ed.page.layers.layers[0].locked = true;
    for kind in [EditKind::Paint, EditKind::FlipVertical] {
        ed.page.history.record(edit(kind));
    }
    for kind in [EditKind::FlipVertical, EditKind::Paint] {
        ed.page.history.push_redo(edit(kind));
    }
    assert_eq!(ed.page.history.undo.len(), 2, "the undo stack is not as loaded");
    assert_eq!(ed.page.history.redo.len(), 2, "the redo stack was drained");
    assert_eq!(
        ed.undo_gate(),
        StepGate::FlipLocked,
        "read past the flip on top of the undo stack"
    );
    assert_eq!(
        ed.redo_gate(),
        StepGate::Clear,
        "read past the paint on top of the redo stack"
    );
    assert!(ed.undo_gate().refuses() && !ed.redo_gate().refuses());
    assert!(FLIP_LOCKED_REASON.starts_with("A flip mirrors every layer at once"));
}

// --- strokes ---------------------------------------------------------------------------

/// The one door every route to a stroke passes through.
#[test]
fn a_locked_layer_refuses_a_stroke() {
    let mut ed = editor();
    assert!(ed.begin_stroke(0), "an unlocked layer paints");
    assert_eq!(ed.gesture.interaction, Interaction::Drawing);

    ed.gesture.stroking = false;
    ed.gesture.interaction = Interaction::Idle;
    ed.page.layers.layers[0].locked = true;
    assert!(!ed.begin_stroke(0), "a locked layer must refuse");
    assert_eq!(
        ed.gesture.interaction,
        Interaction::Idle,
        "a refused stroke must not leave the pointer drawing"
    );
    assert!(!ed.gesture.stroking);
    assert_eq!(
        ed.page.layers.active_refusal(EditTarget::Layer),
        Some(Refusal::Locked)
    );
}

/// A text layer refuses a brush, and its mask does not.
#[test]
fn a_text_layer_refuses_a_stroke_and_its_mask_still_takes_one() {
    let mut ed = editor();
    assert!(ed.begin_stroke(0), "an ordinary layer paints");
    ed.gesture.stroking = false;
    ed.gesture.interaction = Interaction::Idle;

    ed.page.layers.layers[0].text = true;
    assert!(
        !ed.begin_stroke(0),
        "a brush reached a text layer's own pixels"
    );
    assert_eq!(
        ed.gesture.interaction,
        Interaction::Idle,
        "a refused stroke must not leave the pointer drawing"
    );
    assert!(!ed.gesture.stroking);

    // The mask is a different slice and cannot disagree with the record.
    ed.page.layers.layers[0].mask = Some(5);
    ed.page.edit_target = EditTarget::Mask;
    assert!(ed.begin_stroke(0), "a text layer's mask must paint");
    assert_eq!(ed.gesture.stroke_slot, 5);

    // With the mask taken off, the target falls back to the layer.
    ed.gesture.stroking = false;
    ed.gesture.interaction = Interaction::Idle;
    ed.page.layers.layers[0].mask = None;
    assert_eq!(
        ed.stroke_target(),
        ed.page.layers.active_slot().map(|s| (s, false))
    );
    assert!(
        !ed.begin_stroke(0),
        "the mask fell back to the layer and the layer took the stroke"
    );

    // Taking the record off is what lets paint back on.
    ed.page.layers.layers[0].text = false;
    ed.page.edit_target = EditTarget::Layer;
    assert!(ed.begin_stroke(0));
}

/// A resize takes every record off and says how many.
#[test]
fn resizing_a_document_takes_its_text_records_off_and_names_the_loss() {
    let mut ed = editor();
    ed.page.layers.layers[0].text = true;

    // The same size is not a resize.
    let same = ed.page.doc;
    assert!(!ed.apply_canvas(same));
    assert!(ed.page.layers.layers[0].text, "an untouched dialog dropped it");
    assert!(ed.notice.is_none());
    assert!(!ed.session.tabs[0].modified, "and nothing would be lost");

    let bigger = doc(ed.page.doc.width + 64, ed.page.doc.height);
    assert!(ed.apply_canvas(bigger));
    assert!(
        !ed.page.layers.layers[0].text,
        "a resized document kept a placement of the canvas it no longer has"
    );
    let notice = ed.notice.as_ref().expect("the loss was silent");
    assert!(
        notice.lines[0].contains("one text layer"),
        "{:?}",
        notice.lines
    );
    assert!(!notice.lines[0].contains("(s)"), "{:?}", notice.lines);
    assert_eq!(text_layers(1), "one text layer");
    assert_eq!(text_layers(3), "3 text layers");
    assert!(
        !notice.lines[0].contains('—'),
        "no em-dash in a notice: {:?}",
        notice.lines
    );
    assert!(ed.session.tabs[0].modified);
}

/// With the size go the history and the selection, and the camera is brought
/// back onto the canvas.
#[test]
fn resizing_forgets_what_was_of_the_old_canvas() {
    let mut ed = editor();
    ed.page.history.record(Edit { kind: EditKind::Paint, body: EditBody::Pixels(1) });
    ed.page.selection = Some(Selection {
        id: 1,
        bounds: PixelRect { x: 0, y: 0, width: 9, height: 9 },
    });
    ed.page.camera = Camera { center: pos2(900.0, 10.0), zoom: 3 * POINT };
    assert!(ed.apply_canvas(doc(500, 400)));
    assert!(ed.page.history.undo.is_empty());
    assert!(ed.page.selection.is_none());
    assert_eq!(
        ed.page.camera,
        Camera { center: pos2(500.0, 10.0), zoom: 3 * POINT }
    );
    assert!(ed.notice.is_none(), "no text was lost");

    // A change that is no resize is still a change.
    ed.mark_saved("/tmp/a.ora".to_string());
    assert!(!ed.apply_canvas(Document { settings: 7, ..doc(500, 400) }));
    assert!(ed.session.tabs[0].modified);
}

/// The edit target only means anything on a layer that has a mask.
#[test]
fn the_edit_target_falls_back_to_the_layer_without_a_mask() {
    let mut ed = editor();
    ed.page.edit_target = EditTarget::Mask;
    assert_eq!(
        ed.stroke_target(),
        ed.page.layers.active_slot().map(|s| (s, false))
    );
    assert!(!ed.editing_mask());

    ed.page.layers.layers[0].mask = Some(6);
    assert_eq!(
        ed.stroke_target(),
        Some((6, true))
    );
    assert!(ed.editing_mask());
}

/// A stroke on a mask is a grey, and the eraser reveals.
#[test]
fn a_stroke_on_a_mask_is_a_grey_and_the_eraser_reveals() {
    let mut ed = editor();
    ed.page.layers.layers[0].mask = Some(6);
    ed.page.edit_target = EditTarget::Mask;
    ed.set_color(color(0.0, 1.0, 0.0), Hsv { h: 1_200_000, s: WHOLE, v: WHOLE });
    let green = share(0.7152);

    assert!(ed.begin_stroke(green));
    let style = ed.gesture.stroke_style;
    assert!(style.on_mask);
    assert_eq!(ed.gesture.stroke_slot, 6, "the commit must land in the mask");
    let c = style.color;
    assert_eq!((c.r, c.g, c.b), (c.r, c.r, c.r), "a mask stroke is a grey");
    assert!(c.r > 0 && c.r < WHOLE, "green is a mid grey, not black");

    ed.gesture.interaction = Interaction::Idle;
    ed.hand.brush.mode = BrushMode::Erase;
    assert!(ed.begin_stroke(green));
    assert_eq!(ed.gesture.stroke_style.mode, BrushMode::Paint);
    assert_eq!(ed.gesture.stroke_style.color.r, WHOLE, "the eraser reveals");
    assert_eq!(
        mask_paint(BrushMode::Paint, green),
        (Color { r: green, g: green, b: green, a: WHOLE }, BrushMode::Paint)
    );
}

/// Painting the layer is untouched by any of the above.
#[test]
fn painting_the_layer_is_exactly_what_it_was() {
    let mut ed = editor();
    ed.page.layers.layers[0].mask = Some(6);
    ed.hand.color = color(0.25, 0.5, 0.75);
    ed.hand.brush.mode = BrushMode::Erase;

    assert!(ed.begin_stroke(0));
    let style = ed.gesture.stroke_style;
    assert!(!style.on_mask);
    assert_eq!(Some(ed.gesture.stroke_slot), ed.page.layers.active_slot());
    assert_eq!(style.color, ed.hand.color);
    assert_eq!(style.mode, BrushMode::Erase);
}

/// A brush's blend mode is taken back to Normal in the two cases where it means
/// nothing.
#[test]
fn a_stroke_carries_its_brushs_blend_mode_except_where_it_means_nothing() {
    let mut ed = editor();
    ed.hand.brush.blend = BlendMode::Multiply;

    assert!(ed.begin_stroke(0));
    assert_eq!(ed.gesture.stroke_style.blend, BlendMode::Multiply);

    ed.gesture.interaction = Interaction::Idle;
    ed.hand.brush.mode = BrushMode::Erase;
    assert!(ed.begin_stroke(0));
    assert_eq!(
        ed.gesture.stroke_style.blend,
        BlendMode::Normal,
        "an eraser has no colour to blend"
    );

    ed.gesture.interaction = Interaction::Idle;
    ed.hand.brush.mode = BrushMode::Paint;
    ed.page.layers.layers[0].mask = Some(6);
    ed.page.edit_target = EditTarget::Mask;
    assert!(ed.begin_stroke(0));
    assert!(ed.gesture.stroke_style.on_mask);
    assert_eq!(
        ed.gesture.stroke_style.blend,
        BlendMode::Normal,
        "a mask holds coverage, not colour"
    );

    assert_eq!(
        ed.hand.brush.blend,
        BlendMode::Multiply,
        "the brush itself is untouched: the coercion is the stroke's"
    );
}

/// A coloured tip stamps its own colour, except where there is nowhere for one
/// to land.
#[test]
fn a_coloured_tip_stamps_its_colour_only_where_it_can_land() {
    let mut ed = editor();
    ed.hand.tip = Some(Mask { id: 1, coloured: true });
    assert!(ed.begin_stroke(0));
    assert!(ed.gesture.stroke_stamps_colour);
    assert!(ed.gesture.stroke_style.per_dab_color);

    ed.hand.brush.mode = BrushMode::Erase;
    assert!(ed.begin_stroke(0));
    assert!(!ed.gesture.stroke_stamps_colour, "an eraser deposits none");
    assert!(!ed.gesture.stroke_style.per_dab_color);

    // A brush that colours its dabs for its own reason still does, on a mask,
    // and the tip's colour still does not.
    ed.hand.brush.mode = BrushMode::Paint;
    ed.hand.brush.colours_dabs = true;
    ed.page.layers.layers[0].mask = Some(6);
    ed.page.edit_target = EditTarget::Mask;
    assert!(ed.begin_stroke(0));
    assert!(!ed.gesture.stroke_stamps_colour);
    assert!(ed.gesture.stroke_style.per_dab_color);
}

// --- what is drawn ---------------------------------------------------------------------

/// The two readings of the draw list agree entry for entry.
#[test]
fn a_document_with_no_effects_produces_the_draw_list_it_always_did() {
    let mut ed = with_a_folder();
    ed.page.layers.layers[0].visible = false;
    ed.page.layers.layers[2].clipped = true;

    let plain = ed.layer_draws(None);
    let effected = ed.effected_draws(None);
    assert_eq!(plain.len(), effected.len());
    for (a, b) in plain.iter().zip(&effected) {
        assert_eq!(a.slot, b.draw.slot);
        assert_eq!(a.visible, b.draw.visible);
        assert_eq!(a.clipped, b.draw.clipped);
    }
    assert_eq!(
        plain[0],
        LayerDraw {
            slot: 0,
            opacity: WHOLE,
            blend: BlendMode::Normal,
            visible: false,
            mask: None,
            clipped: false,
        }
    );
}

/// The float's preview slice is substituted in both readings.
#[test]
fn a_floats_preview_slice_reaches_both_readings() {
    let ed = editor();
    let slot = ed.page.layers.layers[0].slot.expect("a layer has a slot");
    let float = Some((slot, 9));
    assert_eq!(ed.layer_draws(float)[0].slot, 9);
    assert_eq!(ed.effected_draws(float)[0].draw.slot, 9);
}

/// Effect slices start above everything that has been claimed, and above the
/// slice a floating transform previews into.
#[test]
fn effect_slices_start_above_every_slice_the_model_has_claimed() {
    let mut ed = editor();
    ed.page.layers.layers.push(layer(2, 1));
    ed.page.layers.layers.push(layer(3, 2));
    let needed = 3;
    assert_eq!(ed.effect_slot_base(needed), needed + 1);
    let highest = ed
        .page
        .layers
        .effected_draws(None)
        .iter()
        .map(|e| e.draw.slot)
        .max()
        .expect("some draws");
    assert!(
        ed.effect_slot_base(needed) > highest + 1,
        "an effect slice would collide with the float's spare"
    );
}

/// A folder never reaches the composite.
#[test]
fn a_folder_is_flattened_out_of_the_draw_list() {
    let ed = with_a_folder();
    assert_eq!(ed.page.layers.layers.len(), 4, "three layers and one folder");
    let draws = ed.layer_draws(None);
    assert_eq!(draws.len(), 3, "the folder contributes no draw");
    let slots: Vec<u32> = draws.iter().map(|d| d.slot).collect();
    let expected: Vec<u32> = ed.page.layers.layers.iter().filter_map(|l| l.slot).collect();
    assert_eq!(slots, expected, "and the rest are in stack order");
}

/// A folder's eye folds into its contents.
#[test]
fn hiding_a_folder_hides_its_contents_in_the_draw_list() {
    let mut ed = with_a_folder();
    assert!(ed.layer_draws(None).iter().all(|d| d.visible));

    ed.page.layers.layers[3].visible = false;
    let draws = ed.layer_draws(None);
    assert_eq!(
        draws.iter().map(|d| d.visible).collect::<Vec<_>>(),
        vec![true, false, false],
        "the layer outside the folder still draws"
    );
    assert!(
        ed.page.layers.layers[1].visible,
        "the layers' own eyes are untouched"
    );
}

/// A draw's position is not a stack position once there is a folder in the
/// document.
#[test]
fn the_stroke_is_previewed_on_the_draw_the_layer_actually_is() {
    let mut ed = editor();
    // The folder sits below the other two and shifts every draw above it.
    ed.page.layers = Stack {
        layers: vec![
            Layer { parent: Some(9), ..layer(1, 0) },
            folder(9),
            layer(2, 1),
            layer(3, 2),
        ],
        active: 0,
    };
    for (stack, draw) in [(0usize, 0u32), (2, 1), (3, 2)] {
        ed.page.layers.active = stack;
        assert_eq!(
            ed.active_draw_index(),
            draw,
            "stack position {stack} is draw {draw}"
        );
        assert_eq!(
            ed.layer_draws(None)[draw as usize].slot,
            ed.page.layers.active_slot().unwrap()
        );
    }
}

/// A folder selected answers with a position past the end.
#[test]
fn a_selected_folder_carries_no_stroke() {
    let mut ed = with_a_folder();
    ed.page.layers.active = 3;
    assert!(ed.page.layers.layers[3].is_folder());
    assert_eq!(ed.active_draw_index(), u32::MAX);
    assert!(
        ed.active_draw_index() as usize >= ed.layer_draws(None).len(),
        "no draw may match a folder"
    );
}

/// A folder holds neither pixels nor a mask, so there is nowhere for a stroke to
/// land.
#[test]
fn a_folder_refuses_a_stroke() {
    let mut ed = with_a_folder();
    ed.page.layers.active = 3;
    assert_eq!(ed.stroke_target(), None);
    assert!(!ed.begin_stroke(0), "a folder must refuse");
    assert_eq!(
        ed.gesture.interaction,
        Interaction::Idle,
        "a refused stroke must not leave the pointer drawing"
    );
    assert!(!ed.gesture.stroking);
}

/// A lock on a folder reaches every layer inside it.
#[test]
fn a_lock_on_a_folder_refuses_a_stroke_on_what_is_inside_it() {
    let mut ed = with_a_folder();
    ed.page.layers.active = 1;
    assert!(ed.begin_stroke(0), "unlocked, so it paints");
    ed.gesture.stroking = false;
    ed.gesture.interaction = Interaction::Idle;

    ed.page.layers.layers[3].locked = true;
    assert!(!ed.begin_stroke(0), "the folder's lock has to reach it");
    assert_eq!(ed.gesture.interaction, Interaction::Idle);
    assert!(ed.page.layers.effective_locked(1));
    assert!(!ed.page.layers.effective_locked(0));
}

// --- selections ------------------------------------------------------------------------

fn selection(id: u64) -> Selection {
    Selection { id, bounds: PixelRect { x: 20, y: 20, width: 40, height: 40 } }
}

/// Every setting on the Select strip reaches the gesture, as it was at the press.
#[test]
fn every_setting_on_the_select_strip_reaches_the_gesture() {
    let mut ed = editor();
    ed.ui.tool = Tool::Select;
    ed.ui.selection_mode = SelectionMode::Polygon;
    ed.ui.selection_feather = pt(4.0);
    ed.ui.selection_roundness = WHOLE;
    ed.ui.selection_stabiliser = share(0.8);
    ed.selection_press(pos2(20.0, 20.0), SelectionOp::Add, None);
    let draft = SelectionDraft {
        mode: SelectionMode::Polygon,
        from: pos2(20.0, 20.0),
        op: SelectionOp::Add,
        feather: pt(4.0),
        roundness: WHOLE,
        stabiliser: share(0.8),
    };
    assert_eq!(ed.gesture.draft, Some(draft));
    assert_eq!(ed.gesture.interaction, Interaction::Selecting);

    // A polygon spans several presses and does not change its mind between two.
    ed.ui.selection_feather = 0;
    ed.selection_press(pos2(60.0, 20.0), SelectionOp::Replace, None);
    assert_eq!(ed.gesture.draft, Some(draft));

    // The press that closes it makes the selection.
    ed.selection_press(
        pos2(20.0, 20.0),
        SelectionOp::Replace,
        Some(Closed { combined: Some(selection(3)) }),
    );
    assert_eq!(ed.page.selection, Some(selection(3)));
    assert!(ed.gesture.draft.is_none());
    assert_eq!(ed.gesture.interaction, Interaction::Idle);
}

/// A gesture that encloses nothing clears the selection.
#[test]
fn a_click_deselects() {
    let mut ed = editor();
    ed.page.selection = Some(selection(1));
    ed.selection_press(pos2(1.0, 1.0), SelectionOp::Replace, None);
    ed.selection_release(None);
    assert!(ed.gesture.draft.is_some(), "a polygon goes on");
    ed.selection_release(Some(Closed { combined: None }));
    assert!(ed.page.selection.is_none());
    assert_eq!(ed.gesture.interaction, Interaction::Idle);
}

/// Abandoning an outline keeps what was selected, and ends the gesture.
#[test]
fn abandoning_an_outline_keeps_the_selection() {
    let mut ed = editor();
    ed.page.selection = Some(selection(1));
    assert!(!ed.cancel_selection_draft(), "there was none");
    ed.set_tool(Tool::Select);
    ed.selection_press(pos2(1.0, 1.0), SelectionOp::Replace, None);
    assert!(ed.cancel_selection_draft());
    assert_eq!(ed.page.selection, Some(selection(1)));
    assert_eq!(ed.gesture.interaction, Interaction::Idle);

    // A tool taken up mid-outline abandons it too.
    ed.selection_press(pos2(1.0, 1.0), SelectionOp::Replace, None);
    ed.set_tool(Tool::Eraser);
    assert!(ed.gesture.draft.is_none());
    assert_eq!(ed.gesture.interaction, Interaction::Idle);
    assert_eq!(ed.hand.brush.mode, BrushMode::Erase);
    assert!(Tool::Eraser.paints() && !Tool::Pan.paints());
    // And the button coming up afterwards leaves nothing selecting.
    ed.gesture.interaction = Interaction::Selecting;
    ed.selection_release(None);
    assert_eq!(ed.gesture.interaction, Interaction::Idle);

    ed.deselect();
    assert!(ed.page.selection.is_none());
}

/// The lasso's step follows the camera, and so do the other two distances.
#[test]
fn the_lasso_steps_finer_the_closer_the_camera_is() {
    let at = |zoom: i64| {
        let mut ed = editor();
        ed.page.camera.zoom = zoom;
        (ed.lasso_step(), ed.close_distance(), ed.handle_tolerance())
    };
    assert_eq!(at(POINT), (pt(1.0), pt(10.0), pt(8.0)));
    assert_eq!(at(4 * POINT), (pt(0.25), pt(2.5), pt(2.0)));
    // A camera never so far out that a distance is without end.
    assert_eq!(at(0), (pt(1000.0), pt(10_000.0), pt(8000.0)));
}

// --- transforms ------------------------------------------------------------------------

/// A move and a rotation walk with the pointer; a scale is held from where it
/// was grabbed.
#[test]
fn a_move_walks_and_a_scale_does_not() {
    let mut ed = editor();
    assert_eq!(ed.transform_press(pos2(1.0, 1.0), Handle::Move), None, "no float");
    assert_eq!(ed.transform_moved(pos2(1.0, 1.0)), None);

    ed.gesture.float = Some(Floating { slot: 0, lifted: true, drag: None, made: None });
    for (handle, walks) in [
        (Handle::Move, true),
        (Handle::Rotate, true),
        (Handle::Scale(2), false),
    ] {
        assert_eq!(ed.transform_press(pos2(1.0, 1.0), handle), Some(handle));
        assert_eq!(
            ed.transform_moved(pos2(5.0, 5.0)),
            Some((handle, pos2(1.0, 1.0)))
        );
        let from = if walks { pos2(5.0, 5.0) } else { pos2(1.0, 1.0) };
        assert_eq!(ed.transform_moved(pos2(9.0, 9.0)), Some((handle, from)));
        ed.transform_release();
        assert_eq!(ed.transform_moved(pos2(9.0, 9.0)), None, "let go");
    }
}

#[test]
fn a_transform_picks_up_the_selection_or_the_whole_canvas() {
    let mut ed = editor();
    assert_eq!(
        ed.transform_region(),
        PixelRect { x: 0, y: 0, width: 1000, height: 800 }
    );
    assert!(ed.transform_would_grab(pos2(0.0, 0.0), false));
    assert!(!ed.transform_would_grab(pos2(1000.0, 1.0), false));
    assert!(!ed.transform_would_grab(pos2(-0.5, 1.0), false));
    ed.page.selection = Some(selection(1));
    assert_eq!(ed.transform_region(), selection(1).bounds);
    assert!(ed.transform_would_grab(pos2(5000.0, 1.0), true));
    assert!(!ed.transform_would_grab(pos2(1.0, 1.0), false));

    // The outline is carried soft, or hard where softening would lose it, or
    // not at all where there is nothing left of it.
    ed.carry_selection(Some(selection(2)), Some(selection(3)));
    assert_eq!(ed.page.selection, Some(selection(3)));
    ed.carry_selection(Some(selection(4)), None);
    assert_eq!(ed.page.selection, Some(selection(4)));
    ed.carry_selection(None, None);
    assert!(ed.page.selection.is_none());
    ed.carry_selection(Some(selection(5)), None);
    assert!(ed.page.selection.is_none(), "there was none to carry");
}

// --- placements ------------------------------------------------------------------------

/// A placement makes its layer, records nothing, and gets its one entry at the
/// commit.
#[test]
fn a_placement_records_nothing_until_it_commits() {
    let mut ed = editor();
    let position = ed.page.history.undo.len();

    let made = place(&mut ed, "Chapter One");
    assert_eq!(ed.page.layers.layers.len(), 2);
    assert_eq!(
        ed.page.layers.layers[ed.page.layers.active].name,
        "Chapter One",
        "the layer is not named after its words"
    );
    assert_eq!(
        ed.page.history.undo.len(),
        position,
        "the placement recorded an entry while the box was still in the air"
    );

    let id = made.id;
    ed.commit_made_layer(made);
    assert_eq!(
        ed.page.history.undo.len(),
        position + 1,
        "the commit recorded no entry, so one undo cannot take it back"
    );
    let entry = ed.page.history.take_undo().expect("the placement");
    assert_eq!(entry.kind, EditKind::AddLayer);
    let EditBody::Structure(before) = entry.body else {
        panic!("a placement records a shape");
    };
    restore_shape(&mut ed.page.layers, before);
    assert!(
        !ed.page.layers.layers.iter().any(|l| l.id == id),
        "undoing the placement left its layer in the stack"
    );
}

/// Escape after a placement leaves the redo stack exactly as it found it.
#[test]
fn escaping_a_placement_leaves_the_redo_stack_it_found() {
    let mut ed = editor();
    // Something to have undone: a second layer added and taken back off.
    let before = shape(&ed.page.layers);
    ed.page.layers.layers.push(layer(2, 1));
    ed.page.layers.active = 1;
    let added = 2;
    ed.page.history.record(Edit {
        kind: EditKind::AddLayer,
        body: EditBody::Structure(before),
    });
    let entry = ed.page.history.take_undo().expect("the add");
    let EditBody::Structure(back) = entry.body else {
        panic!("an add records a shape");
    };
    let inverse = restore_shape(&mut ed.page.layers, back);
    ed.page.history.push_redo(Edit {
        kind: entry.kind,
        body: EditBody::Structure(inverse),
    });
    assert_eq!(ed.page.history.redo.len(), 1, "one to redo");

    // Place a caption and change your mind.
    let made = ed
        .make_text_layer("Caption".to_string(), Some(Grant { at: 1, parent: None, id: 3, slot: 2 }))
        .expect("room for one");
    ed.unmake_layer(Some(made));

    assert_eq!(
        ed.page.history.redo.len(),
        1,
        "pressing Escape threw away the edit the artist had undone"
    );
    let redo = ed.page.history.take_redo().expect("the add, still redoable");
    let EditBody::Structure(again) = redo.body else {
        panic!("an add records a shape");
    };
    restore_shape(&mut ed.page.layers, again);
    assert!(
        ed.page.layers.layers.iter().any(|l| l.id == added),
        "the redo stack survived but no longer redoes anything"
    );
}

/// Abandoning a placement takes back its layer and its slice, and leaves the
/// history alone.
#[test]
fn abandoning_a_placement_takes_back_its_layer_and_its_slice() {
    let mut ed = editor();
    let ceiling = |ed: &Editor| ed.page.layers.layers.iter().filter_map(|l| l.slot).max();
    let was_active = ed.page.layers.layers[ed.page.layers.active].id;
    let before = ceiling(&ed);
    let position = ed.page.history.undo.len();

    let made = place(&mut ed, "Caption");
    assert!(ceiling(&ed) > before, "it took a slice");

    ed.unmake_layer(Some(made));
    assert_eq!(ed.page.layers.layers.len(), 1, "the layer went");
    assert_eq!(
        ceiling(&ed),
        before,
        "the slice was parked rather than given back"
    );
    assert_eq!(
        ed.page.history.undo.len(),
        position,
        "an entry was left behind that would undo a layer that has gone"
    );
    assert_eq!(
        ed.page.layers.layers[ed.page.layers.active].id,
        was_active,
        "the selection went back where the artist left it"
    );
}

/// A reorder made before a placement undoes after it, in the order the artist
/// made them.
#[test]
fn a_reorder_before_a_placement_undoes_after_it() {
    let mut ed = editor();
    ed.page.layers.layers.push(layer(2, 1));
    ed.page.layers.active = 1;
    let bottom = ed.page.layers.layers[0].id;

    let move_before = shape(&ed.page.layers);
    ed.page.layers.layers.swap(0, 1);
    ed.page.history.record(Edit {
        kind: EditKind::MoveLayer,
        body: EditBody::Structure(move_before),
    });
    assert_ne!(
        ed.page.layers.layers[0].id, bottom,
        "the fixture did not reorder anything"
    );

    // Then the placement, recorded at its commit.
    let made = place(&mut ed, "Caption");
    let id = made.id;
    let slot = ed
        .page
        .layers
        .layers
        .iter()
        .find(|l| l.id == id)
        .and_then(|l| l.slot)
        .expect("the new layer took a slice");
    ed.commit_made_layer(made);

    // Undo, twice, newest first.
    let add_entry = ed.page.history.take_undo().expect("the placement");
    assert_eq!(add_entry.kind, EditKind::AddLayer);
    let EditBody::Structure(before_add) = add_entry.body else {
        panic!("a placement records a shape");
    };
    let redo = restore_shape(&mut ed.page.layers, before_add);
    assert!(
        !ed.page.layers.layers.iter().any(|l| l.id == id),
        "the first undo did not take the caption's layer out"
    );
    let move_entry = ed.page.history.take_undo().expect("the reorder");
    let EditBody::Structure(before_move) = move_entry.body else {
        panic!("a reorder records a shape");
    };
    restore_shape(&mut ed.page.layers, before_move);
    assert_eq!(
        ed.page.layers.layers[0].id, bottom,
        "the reorder's undo was refused"
    );

    // And redo puts the layer back with its slice.
    restore_shape(&mut ed.page.layers, redo);
    let at = ed
        .page
        .layers
        .layers
        .iter()
        .position(|l| l.id == id)
        .expect("the layer came back");
    assert_eq!(ed.page.layers.layers[at].slot, Some(slot));
    assert_eq!(ed.page.layers.layers[at].name, "Caption");
}

/// Nothing was made, so nothing is taken back.
#[test]
fn a_float_that_made_no_layer_takes_none_away() {
    let mut ed = editor();
    ed.page.layers.layers.push(layer(2, 1));
    let before: Vec<u32> = ed.page.layers.layers.iter().map(|l| l.id).collect();
    ed.unmake_layer(None);
    let after: Vec<u32> = ed.page.layers.layers.iter().map(|l| l.id).collect();
    assert_eq!(before, after);
}

/// A stack that takes no more makes no layer, and a document always keeps
/// somewhere to paint.
#[test]
fn a_placement_never_leaves_nowhere_to_paint() {
    let mut ed = editor();
    assert!(ed.make_text_layer("x".to_string(), None).is_none());
    assert_eq!(ed.page.layers.layers.len(), 1);

    let made = place(&mut ed, "only");
    ed.page.layers.layers.remove(0);
    ed.page.layers.active = 0;
    ed.unmake_layer(Some(made));
    assert_eq!(ed.page.layers.layers.len(), 1, "the last one stays");
}

// --- documents -------------------------------------------------------------------------

fn open_second(ed: &mut Editor) {
    let state = DocumentState {
        doc: doc(64, 32),
        layers: Stack { layers: vec![layer(1, 4)], active: 0 },
        history: History::new(),
        camera: Camera { center: pos2(0.0, 0.0), zoom: POINT },
        selection: None,
        edit_target: EditTarget::Layer,
    };
    let camera = Camera { center: pos2(32.0, 16.0), zoom: 2 * POINT };
    let id = ed.open_document(
        state,
        2,
        "two.png".to_string(),
        Some("/tmp/two.png".to_string()),
        vec!["a note".to_string()],
        camera,
    );
    assert_eq!(id, 2);
    assert_eq!(ed.page.camera, camera);
}

/// Opening a document parks the one that was in front, and switching back finds
/// it as it was.
#[test]
fn a_document_is_found_as_it_was_left() {
    let mut ed = editor();
    ed.page.selection = Some(selection(1));
    ed.page.camera.zoom = 3 * POINT;
    ed.gesture.interaction = Interaction::Selecting;
    open_second(&mut ed);
    assert_eq!(ed.session.active, 1);
    assert_eq!(ed.page.doc, doc(64, 32));
    assert!(ed.page.selection.is_none());
    assert_eq!(ed.gesture.interaction, Interaction::Idle, "the gesture does not travel");
    assert_eq!(ed.gesture.stroke_slot, 4);
    assert_eq!(ed.session.tabs[1].notes, vec!["a note".to_string()]);
    assert!(ed.session.tabs[0].parked.is_some() && ed.session.tabs[1].parked.is_none());

    assert!(ed.switch_tab(0));
    assert_eq!(ed.page.doc, doc(1000, 800));
    assert_eq!(ed.page.selection, Some(selection(1)));
    assert_eq!(ed.page.camera.zoom, 3 * POINT);
    assert!(!ed.switch_tab(0), "it is already in front");
    assert!(!ed.switch_tab(9), "there is no such tab");
}

/// Closing a tab frees its id and loses no other document.
#[test]
fn closing_a_tab_loses_no_other_document_with_it() {
    let mut ed = editor();
    open_second(&mut ed);
    ed.new_document(3, "Untitled 2".to_string(), layer(1, 8), Camera {
        center: pos2(1.0, 1.0),
        zoom: POINT,
    });
    assert_eq!(ed.page.doc, doc(64, 32), "like the one in front");
    // A tab behind the live one.
    assert_eq!(ed.close_tab(1, Some(0)), Some(2));
    assert_eq!(ed.session.active, 1);
    assert_eq!(ed.session.tabs[1].id, 3);
    assert_eq!(ed.page.layers.layers[0].slot, Some(8));
    // The live one.
    assert_eq!(ed.close_tab(1, Some(0)), Some(3));
    assert_eq!(ed.session.active, 0);
    assert_eq!(ed.page.doc, doc(1000, 800));
    // And the last cannot be closed.
    assert_eq!(ed.close_tab(0, None), None);
    assert_eq!(ed.session.tabs.len(), 1);
}

/// Every open document is listed with what storage it needs.
#[test]
fn every_open_document_is_listed_with_its_storage() {
    let mut ed = editor();
    open_second(&mut ed);
    assert_eq!(
        ed.open_documents(5, &vec![3, 0]),
        vec![(1, doc(1000, 800), 3), (2, doc(64, 32), 5)]
    );
}

/// Every document that would lose something is listed, and not only the one in
/// front.
#[test]
fn every_unsaved_document_is_named() {
    let mut ed = editor();
    ed.mark_modified();
    open_second(&mut ed);
    assert_eq!(ed.unsaved_documents(), vec![0]);
    ed.mark_modified();
    assert_eq!(ed.unsaved_documents(), vec![0, 1]);
    assert_eq!(ed.session.tabs[1].revision, 1);
    ed.mark_saved("/tmp/two.ora".to_string());
    assert_eq!(ed.unsaved_documents(), vec![0]);
    assert_eq!(ed.session.tabs[1].path.as_deref(), Some("/tmp/two.ora"));
}

/// A flip turns the selection over, says which text it lost, and touches neither
/// the history nor the camera.
#[test]
fn a_flip_mirrors_the_document_and_says_what_it_lost() {
    let mut ed = editor();
    ed.page.layers.layers[0].text = true;
    ed.page.layers.layers.push(Layer { text: true, ..layer(2, 1) });
    ed.page.selection = Some(selection(1));
    ed.page.history.record(Edit { kind: EditKind::Paint, body: EditBody::Pixels(1) });
    let camera = ed.page.camera;
    ed.flip_canvas(Some(selection(2)), &vec![]);
    assert_eq!(ed.page.selection, Some(selection(2)));
    assert!(ed.notice.is_none(), "nothing was lost, so nothing is said");
    assert_eq!(ed.page.history.undo.len(), 1);
    assert_eq!(ed.page.camera, camera);

    ed.flip_canvas(Some(selection(3)), &vec![2]);
    assert!(ed.page.layers.layers[0].text);
    assert!(!ed.page.layers.layers[1].text);
    let notice = ed.notice.as_ref().expect("a loss is said");
    assert_eq!(notice.title, "Some text is paint now");
    assert_eq!(
        notice.lines,
        vec![
            "one text layer sat outside the canvas, so Umber could not mirror where the text \
             goes. Every pixel is still there. What is lost is that it can be set again."
                .to_string()
        ]
    );
    // With nothing selected there is nothing to turn over.
    ed.deselect();
    ed.flip_canvas(Some(selection(4)), &vec![]);
    assert!(ed.page.selection.is_none());
}

/// An editor opens on one blank document, centred, with nothing done.
#[test]
fn an_editor_opens_on_a_blank_document() {
    let ed = editor();
    assert_eq!(ed.page.camera, Camera { center: pos2(500.0, 400.0), zoom: POINT });
    assert_eq!(ed.ui, UiState::default());
    assert_eq!(ed.hand.secondary, color(1.0, 1.0, 1.0));
    assert_eq!(ed.hand.hsv, NEAR_BLACK);
    assert_eq!(ed.gesture.interaction, Interaction::Idle);
    assert_eq!(ed.average_fps(), 0);
    assert!(!ed.quit_requested);
    assert_eq!(ed.ui.theme, ThemeKind::Graphite);
    assert_eq!(ed.ui.settings_tab, SettingsTab::Themes);
    assert_eq!(ed.pointer.last_cursor, pos2(0.0, 0.0));
    assert!(!ed.pointer.space_down);
    assert_eq!(ed.pointer.zoom_anchor, pos2(0.0, 0.0));
    assert!(ed.pointer.touches.is_empty());
    assert_eq!(ed.pointer.drawing_touch, None);
    assert_eq!(ed.pointer.pinch, None);
    assert!(ed.pressure.fresh);
    assert!(!ed.pressure_is_flat());
}

/// A stroke is begun in the mode and the colour it is committed with, and with a
/// pressure that knows nothing of the stroke before.
#[test]
fn a_stroke_is_begun_with_what_it_is_committed_with() {
    let mut ed = editor();
    ed.hand.color = color(0.2, 0.4, 0.6);
    ed.sample(5_000, pos2(10.0, 10.0), pos2(0.0, 0.0));
    assert!(!ed.pressure.fresh, "a reading leaves something behind");
    assert!(ed.begin_stroke(0));
    assert!(ed.pressure.fresh);
    let start = ed.stroke_start();
    assert_eq!(start.brush, ed.hand.brush);
    let paint = ed.hand.color;
    assert_eq!((start.red, start.green, start.blue), (paint.r, paint.g, paint.b));

    // On a mask the eraser paints, and paints white.
    let mut ed = editor();
    ed.page.layers.layers[0].mask = Some(5);
    ed.page.edit_target = EditTarget::Mask;
    ed.hand.brush.mode = BrushMode::Erase;
    assert!(ed.begin_stroke(0));
    let start = ed.stroke_start();
    assert_eq!(start.brush, Brush { mode: BrushMode::Paint, ..ed.hand.brush });
    assert_eq!((start.red, start.green, start.blue), (WHOLE, WHOLE, WHOLE));

    // A refused stroke leaves the pressure be.
    let mut ed = editor();
    ed.page.layers.layers[0].locked = true;
    ed.sample(5_000, pos2(10.0, 10.0), pos2(0.0, 0.0));
    assert!(!ed.begin_stroke(0));
    assert!(!ed.pressure.fresh);
}

/// The rate is over the frames there have been, and the oldest goes first.
#[test]
fn the_frame_rate_is_over_the_last_sixty_frames() {
    let mut ed = editor();
    ed.record_frame_time(20_000_000);
    assert_eq!(ed.average_fps(), 50_000);
    ed.record_frame_time(5_000_000);
    assert_eq!(ed.average_fps(), 80_000, "two frames in 25 milliseconds");
    for _ in 0..60 {
        ed.record_frame_time(10_000_000);
    }
    assert_eq!(ed.average_fps(), 100_000);
    assert_eq!(ed.frames.cursor, 2);
}

/// Travel is measured in the document and time since the reading before, and a
/// clock that runs backwards counts as standing still.
#[test]
fn a_reading_of_the_pointer_says_how_far_and_how_long() {
    let mut ed = editor();
    let first = ed.sample(5_000, pos2(10.0, 10.0), pos2(0.0, 0.0));
    assert_eq!(first.elapsed, 5_000);
    assert_eq!(first.distance, 141_421);
    let second = ed.sample(7_500, pos2(13.0, 6.0), pos2(10.0, 10.0));
    assert_eq!(second.at, pos2(13.0, 6.0));
    assert_eq!(second.distance, pt(5.0));
    assert_eq!(second.elapsed, 2_500);
    assert_eq!(ed.sample(7_000, pos2(13.0, 6.0), pos2(13.0, 6.0)).elapsed, 0);
    assert_eq!(ed.viewport.sampled, 7_000);
}

/// A pointer that moves with no outline under way has nothing to record into.
#[test]
fn only_an_outline_under_way_records_the_pointer() {
    let mut ed = editor();
    ed.page.camera.zoom = 2 * POINT;
    assert_eq!(ed.selection_moved(), None);
    ed.ui.selection_mode = SelectionMode::Lasso;
    ed.selection_press(pos2(4.0, 4.0), SelectionOp::Replace, None);
    assert_eq!(ed.selection_moved(), Some(pt(0.5)));
}

/// The picker's mix becomes the colour in hand, and nothing else changes.
#[test]
fn committing_the_picker_takes_its_colour() {
    let mut ed = editor();
    let (mix, back) = (ed.hand.hsv, ed.hand.secondary);
    ed.commit_picker(color(0.2, 0.4, 0.6));
    assert_eq!(ed.hand.color, color(0.2, 0.4, 0.6));
    assert_eq!((ed.hand.hsv, ed.hand.secondary), (mix, back));
}

/// A panel over the canvas owns the pointer there and nowhere else.
#[test]
fn a_panel_in_the_way_owns_the_pointer() {
    let mut ed = editor();
    ed.viewport.pixels_per_point = 2 * POINT;
    let saved = "umber-layout 1\nfloat layers 100.0 100.0 300.0 300.0\n";
    ed.layout = Layout::from_config(saved).unwrap();
    assert!(ed.layout_owns_pointer(pos2(400.0, 400.0)));
    assert!(!ed.layout_owns_pointer(pos2(100.0, 100.0)));
}

/// Zooming with no pointer to anchor on leaves what is in the middle there.
#[test]
fn a_keyboard_zoom_keeps_the_middle_where_it_was() {
    let mut ed = editor();
    ed.fit_view(Camera { center: pos2(120.0, 80.0), zoom: POINT / 2 });
    ed.zoom_by(2 * POINT);
    assert_eq!(ed.page.camera, Camera { center: pos2(120.0, 80.0), zoom: 2 * POINT });
}
