//! Where the panels are, and what dragging them about does.

use umber_app::dock::geometry::Geometry;
use umber_app::dock::heights::{settle, stack_heights, FINE};
use umber_app::dock::kind::{PanelKind, Side};
use umber_app::dock::layout::Layout;
use umber_app::dock::limits;
use umber_app::dock::model::{DropTarget, Floating, Origin};
use umber_app::dock::store::{config_path, Places, Platform, FILE};
use umber_app::geom::{Pos2, Rect, Vec2, POINT, REACH};
use umber_app::metrics;

/// A length in points, on the grid.
fn pt(v: f64) -> i64 {
    (v * POINT as f64).round() as i64
}

fn pos2(x: f64, y: f64) -> Pos2 {
    Pos2 { x: pt(x), y: pt(y) }
}

fn rect(x: f64, y: f64, w: f64, h: f64) -> Rect {
    Rect::from_min_size(pos2(x, y), Vec2 { x: pt(w), y: pt(h) })
}

fn center(r: Rect) -> Pos2 {
    Pos2 { x: (r.min.x + r.max.x) / 2, y: (r.min.y + r.max.y) / 2 }
}

/// The shipped arrangement's one column, which most of these work against.
const DOCK: usize = 0;

fn weights(layout: &Layout, side: Side, column: usize) -> Vec<i64> {
    layout.docked(side, column).iter().map(|d| d.weight).collect()
}

fn kinds(layout: &Layout, side: Side, column: usize) -> Vec<PanelKind> {
    layout.docked(side, column).iter().map(|d| d.kind).collect()
}

/// A weight, in millionths.
fn wt(v: f64) -> i64 {
    (v * limits::WEIGHT_ONE as f64).round() as i64
}

/// A length in points, in the steps heights are shared out in.
fn fine(v: f64) -> i128 {
    i128::from(pt(v)) * FINE
}

/// Within a hundredth of a point.
fn near(a: i128, b: i128) -> bool {
    (a - b).abs() < fine(1e-2)
}

#[test]
fn stack_heights_fill_exactly() {
    let h = stack_heights(&[wt(3.0), wt(1.0), wt(2.0)], pt(600.0));
    assert_eq!(h.len(), 3);
    assert_eq!(h.iter().sum::<i128>(), fine(600.0));
    assert!(h[0] > h[2] && h[2] > h[1]);
    // A minimum each, and the 312 left over in sixths.
    assert_eq!(h, vec![fine(252.0), fine(148.0), fine(200.0)]);
}

#[test]
fn stack_heights_honour_the_minimum() {
    // A weight of zero must still leave a usable panel.
    let h = stack_heights(&[wt(100.0), 0], pt(500.0));
    assert!(h[1] >= fine(96.0), "{h:?}");
    assert_eq!(fine(96.0), i128::from(limits::PANEL_MIN_HEIGHT) * FINE);
    assert_eq!(h.iter().sum::<i128>(), fine(500.0));
    assert_eq!(h, vec![fine(404.0), fine(96.0)]);
}

#[test]
fn stack_heights_share_equally_when_starved() {
    let h = stack_heights(&[wt(5.0), wt(1.0), wt(1.0)], pt(60.0));
    assert!(h.iter().all(|v| *v == fine(20.0)), "{h:?}");
}

#[test]
fn no_panels_share_no_height() {
    assert_eq!(stack_heights(&[], pt(500.0)), Vec::<i128>::new());
}

/// However many panels share a room, next to nothing of it is lost.
#[test]
fn heights_fill_the_room_for_any_count() {
    for (count, available) in
        [(1, 6.9375), (101, 1.0), (128, 6.9375), (128, 12_345.6789), (5_000, 10_000.0)]
    {
        let weights: Vec<i64> = (0..count).map(|i| wt(f64::from(i % 7) / 3.0)).collect();
        let h = stack_heights(&weights, pt(available));
        let sum = h.iter().sum::<i128>();
        assert!(near(sum, fine(available)), "{count} in {available}: {sum}");
        assert!(sum <= fine(available));
        if fine(available) <= fine(96.0) * i128::from(count) {
            assert!(h.iter().all(|v| *v == h[0]));
        } else {
            assert!(h.iter().all(|v| *v >= fine(96.0)));
        }
        for i in 0..h.len().min(20) {
            for j in 0..h.len().min(20) {
                assert!(weights[i] > weights[j] || h[i] <= h[j]);
            }
        }
    }
}

/// Next to no weight anywhere is none at all; a little more is a share.
#[test]
fn a_little_weight_is_a_share() {
    assert_eq!(stack_heights(&[1, 0], pt(500.0)), vec![fine(250.0), fine(250.0)]);
    assert_eq!(stack_heights(&[2, 0], pt(500.0)), vec![fine(404.0), fine(96.0)]);
    assert_eq!(stack_heights(&[wt(0.00004), 0], pt(500.0)), vec![fine(404.0), fine(96.0)]);
    assert_eq!(stack_heights(&[-5, 0], pt(500.0)), vec![fine(250.0), fine(250.0)]);
}

#[test]
fn a_fine_length_settles_on_the_nearest_step() {
    assert_eq!(settle(0), 0);
    assert_eq!(settle(FINE / 2 - 1), 0);
    assert_eq!(settle(FINE / 2), 1);
    assert_eq!(settle(fine(96.0) + 1), pt(96.0));
}

#[test]
fn dragging_a_splitter_round_trips() {
    // The heights the user drags to must be the heights they get back, or the
    // stack creeps every frame.
    let mut layout = Layout::default();
    let available = pt(700.0);
    let heights = stack_heights(&weights(&layout, Side::Right, DOCK), available);

    layout.resize_split(Side::Right, DOCK, 0, pt(40.0), &heights);

    let replayed = stack_heights(&weights(&layout, Side::Right, DOCK), available);
    assert!(near(replayed[0], heights[0] + fine(40.0)), "{replayed:?}");
    assert!(near(replayed[1], heights[1] - fine(40.0)), "{replayed:?}");
    assert!(near(replayed[2], heights[2]), "{replayed:?}");
}

#[test]
fn a_splitter_cannot_destroy_a_panel() {
    let mut layout = Layout::default();
    let available = pt(700.0);
    let heights = stack_heights(&weights(&layout, Side::Right, DOCK), available);

    // Shove the boundary far past the bottom panel's minimum.
    layout.resize_split(Side::Right, DOCK, 0, pt(10_000.0), &heights);

    let replayed = stack_heights(&weights(&layout, Side::Right, DOCK), available);
    assert!(
        replayed.iter().all(|h| *h >= fine(96.0) - fine(1e-2)),
        "{replayed:?}"
    );
    assert!(near(replayed.iter().sum::<i128>(), fine(700.0)), "{replayed:?}");
}

/// What a panel has beyond the minimum is its weight; with nothing to spare
/// anywhere they all weigh the same.
#[test]
fn a_splitter_leaves_heights_as_weights() {
    let mut layout = Layout::default();
    layout.resize_split(
        Side::Right,
        DOCK,
        0,
        pt(10.0),
        &[fine(196.5), fine(146.0), fine(96.0)],
    );
    assert_eq!(weights(&layout, Side::Right, DOCK), vec![wt(110.5), wt(40.0), 0]);
    layout.resize_split(Side::Right, DOCK, 0, 0, &[fine(96.0), fine(96.0), fine(96.0)]);
    assert_eq!(weights(&layout, Side::Right, DOCK), vec![wt(1.0); 3]);
}

/// A height is its own weight's: equal weights are equal heights, whatever the
/// rounding, and the stack never outgrows its room.
#[test]
fn panels_of_one_weight_are_of_one_height() {
    for available in [1_000_000, 1_000_001, 1_000_002, 8_000_000, 8_000_001, 8_000_003] {
        let h = stack_heights(&[wt(1.0), wt(1.0), wt(1.0)], available);
        assert!(h[0] == h[1] && h[1] == h[2], "{h:?}");
        let sum = h.iter().sum::<i128>();
        let room = i128::from(available) * FINE;
        assert!(sum <= room && room - sum < 3, "{h:?}");
    }
    assert_eq!(
        stack_heights(&[wt(1.0), wt(5.0), wt(2.0)], 1_000_001),
        vec![333_333_666_666_666_666_666_666; 3]
    );
    let h = stack_heights(&[wt(1.0), wt(2.0), wt(1.0), 0], pt(500.0) + 1);
    assert!(h[0] == h[2] && h[1] > h[0] && h[0] > h[3], "{h:?}");
    assert_eq!(h[3], fine(96.0));
}

/// The slots of a column cover it from top to bottom, whatever the rounding.
#[test]
fn slots_cover_their_column() {
    let layout = Layout::default();
    for h in [900.0, 777.7777, 300.0001, 100.0] {
        let geo = layout.geometry(rect(0.0, 70.0, 1440.0, h));
        for side in [Side::Left, Side::Right] {
            for column in geo.columns(side) {
                assert_eq!(column.slots[0].min.y, column.rect.min.y);
                for pair in column.slots.windows(2) {
                    assert_eq!(pair[0].max.y, pair[1].min.y);
                }
                assert_eq!(column.slots.last().expect("one").max.y, column.rect.max.y);
            }
        }
    }
}

/// Dragging a splitter by nothing, frame after frame, leaves the stack still.
#[test]
fn a_splitter_held_still_does_not_creep() {
    let mut layout = Layout::default();
    let available = pt(700.0) + 1;
    let heights = stack_heights(&weights(&layout, Side::Right, DOCK), available);
    for _ in 0..50 {
        let now = stack_heights(&weights(&layout, Side::Right, DOCK), available);
        layout.resize_split(Side::Right, DOCK, 0, 0, &now);
    }
    let after = stack_heights(&weights(&layout, Side::Right, DOCK), available);
    assert!(heights.iter().zip(&after).all(|(a, b)| near(*a, *b)), "{heights:?} {after:?}");
}

/// Layers pulled out into a column of its own at the very edge, with the other
/// two inside it.
fn two_columns_on_the_right() -> Layout {
    let mut layout = Layout::default();
    layout.set_edit_mode(true);
    layout.begin_drag(
        PanelKind::Layers,
        pos2(1200.0, 700.0),
        rect(1176.0, 680.0, 264.0, 200.0),
    );
    layout.end_drag(DropTarget::NewColumn { side: Side::Right, column: 0 });
    layout.set_edit_mode(false);
    assert_eq!(layout.columns(Side::Right).len(), 2);
    layout
}

/// A splitter drag belongs to one column and must leave the others alone.
#[test]
fn a_splitter_only_moves_its_own_column() {
    let mut layout = two_columns_on_the_right();
    let before = weights(&layout, Side::Right, 0);
    let inner = stack_heights(&weights(&layout, Side::Right, 1), pt(700.0));
    layout.resize_split(Side::Right, 1, 0, pt(30.0), &inner);
    assert_eq!(weights(&layout, Side::Right, 0), before);
}

#[test]
fn a_column_width_is_clamped() {
    let mut layout = Layout::default();
    layout.set_width(Side::Right, DOCK, pt(10.0));
    assert_eq!(layout.width(Side::Right, DOCK), limits::SIDEBAR_MIN_WIDTH);
    layout.set_width(Side::Right, DOCK, pt(9999.0));
    assert_eq!(layout.width(Side::Right, DOCK), limits::SIDEBAR_MAX_WIDTH);
}

#[test]
fn geometry_leaves_the_canvas_between_the_columns() {
    let layout = Layout::default();
    let geo = layout.geometry(rect(0.0, 70.0, 1440.0, 800.0));
    let rail = geo.columns(Side::Left);
    assert_eq!(rail.len(), 1, "the shipped rail");
    assert_eq!(rail[0].rect.min.x, 0);
    assert_eq!(rail[0].rect.width(), limits::SIDEBAR_MIN_WIDTH);
    let right = geo.sidebar(Side::Right).expect("default docks on the right");
    assert_eq!(right.max.x, pt(1440.0));
    assert_eq!(geo.canvas.min.x, rail[0].rect.max.x);
    assert_eq!(geo.canvas.max.x, right.min.x);
    assert_eq!(geo.columns(Side::Right)[0].slots.len(), 3);
}

/// Two columns on one side sit side by side, outermost first, and the canvas is
/// what is left inside both.
#[test]
fn two_columns_on_a_side_stack_inwards_from_the_edge() {
    let layout = two_columns_on_the_right();
    assert_eq!(kinds(&layout, Side::Right, 0), vec![PanelKind::Layers]);
    assert_eq!(
        kinds(&layout, Side::Right, 1),
        vec![PanelKind::Colour, PanelKind::Brushes]
    );

    let geo = layout.geometry(rect(0.0, 70.0, 1440.0, 800.0));
    let cols = geo.columns(Side::Right);
    assert_eq!(cols[0].rect.max.x, pt(1440.0), "column 0 is at the edge");
    assert_eq!(cols[1].rect.max.x, cols[0].rect.min.x);
    assert_eq!(geo.canvas.max.x, cols[1].rect.min.x);
    // Both are full height, which is the whole point of the arrangement.
    assert_eq!(cols[0].rect.height(), cols[1].rect.height());
}

/// Every rectangle the layout hands out has to survive a window dragged down to
/// nothing, over the default layout, over one holding every module there is,
/// and over one with several columns a side.
#[test]
fn a_window_too_small_for_the_chrome_still_produces_sane_rects() {
    let mut crowded = Layout::default();
    for kind in PanelKind::all() {
        crowded.open(kind);
    }

    let mut columned = Layout::default();
    columned.set_edit_mode(true);
    for (kind, side, column) in [
        (PanelKind::Layers, Side::Right, 0),
        (PanelKind::Brushes, Side::Left, 0),
        (PanelKind::History, Side::Left, 1),
    ] {
        columned.open(kind);
        columned.begin_drag(kind, pos2(0.0, 0.0), rect(0.0, 0.0, 264.0, 200.0));
        columned.end_drag(DropTarget::NewColumn { side, column });
    }

    for layout in [Layout::default(), crowded, columned] {
        small_window_sweep(&layout);
    }
}

fn every_rect(geo: &Geometry) -> Vec<Rect> {
    let mut all = vec![geo.workspace, geo.canvas];
    for side in Side::all() {
        all.extend(geo.sidebar(side));
        all.push(geo.drop_zone(side));
        for column in 0..=geo.columns(side).len() {
            all.push(geo.new_column_strip(side, column));
        }
        for column in geo.columns(side) {
            all.push(column.rect);
            all.extend(column.slots.iter().copied());
        }
    }
    all
}

fn small_window_sweep(layout: &Layout) {
    for (w, h) in [
        (0.0, 0.0),
        (10.0, 400.0),
        (76.0, 400.0),
        (200.0, 5.0),
        (240.0, 240.0),
        // Shorter than the strips: what reaches `geometry` is inverted.
        (900.0, -60.0),
    ] {
        let geo = layout.geometry(rect(0.0, 70.0, w, h));
        for r in every_rect(&geo) {
            assert!(r.width() >= 0 && r.height() >= 0, "{w}x{h} produced {r:?}");
        }
        // And a drop still resolves to something rather than panicking on the
        // way through the empty slot list.
        let _ = geo.drop_target(pos2(0.0, 0.0));
        let _ = geo.insertion_line(Side::Right, 0, 0);
    }
}

#[test]
fn floating_panels_do_not_shrink_the_canvas() {
    let mut layout = Layout::default();
    let workspace = rect(0.0, 70.0, 1440.0, 800.0);
    let before = layout.geometry(workspace).canvas;

    layout.close(PanelKind::Layers);
    layout.floating.push(Floating {
        kind: PanelKind::Layers,
        rect: rect(600.0, 300.0, 260.0, 300.0),
    });
    let after = layout.geometry(workspace).canvas;

    assert_eq!(before, after);
}

#[test]
fn dropping_over_a_column_picks_the_slot_under_the_pointer() {
    let layout = Layout::default();
    let geo = layout.geometry(rect(0.0, 0.0, 1440.0, 900.0));
    let slots = &geo.columns(Side::Right)[0].slots;

    // Top half of the first slot inserts above it. Horizontally in the middle of
    // the column, away from the new-column bands.
    let p = Pos2 { x: center(slots[0]).x, y: slots[0].min.y + pt(4.0) };
    assert_eq!(
        geo.drop_target(p),
        DropTarget::Dock { side: Side::Right, column: 0, index: 0 }
    );
    // Bottom half of the last slot appends.
    let last = slots.last().unwrap();
    let p = Pos2 { x: center(*last).x, y: last.max.y - pt(4.0) };
    assert_eq!(
        geo.drop_target(p),
        DropTarget::Dock { side: Side::Right, column: 0, index: slots.len() }
    );
}

/// The edges of a column are where a new column is asked for, and the two sides
/// of one boundary have to name the same index or the indicator would jump as
/// the pointer crossed it.
#[test]
fn the_edge_of_a_column_asks_for_a_new_one() {
    let layout = two_columns_on_the_right();
    let geo = layout.geometry(rect(0.0, 0.0, 1440.0, 900.0));
    let cols = geo.columns(Side::Right);

    // Hard against the window edge: outside everything docked.
    assert_eq!(
        geo.drop_target(pos2(1439.0, 400.0)),
        DropTarget::NewColumn { side: Side::Right, column: 0 }
    );
    // The boundary between the two columns, from either side of it.
    let boundary = cols[0].rect.min.x;
    for x in [boundary + pt(2.0), boundary - pt(2.0)] {
        assert_eq!(
            geo.drop_target(Pos2 { x, y: pt(400.0) }),
            DropTarget::NewColumn { side: Side::Right, column: 1 },
            "at {x}"
        );
    }
    // And inside the innermost column, against the canvas.
    assert_eq!(
        geo.drop_target(Pos2 { x: cols[1].rect.min.x + pt(2.0), y: pt(400.0) }),
        DropTarget::NewColumn { side: Side::Right, column: 2 }
    );
}

#[test]
fn an_empty_side_still_accepts_a_drop() {
    let mut layout = Layout::default();
    layout.close(PanelKind::Tools);
    let geo = layout.geometry(rect(0.0, 0.0, 1440.0, 900.0));
    assert!(geo.columns(Side::Left).is_empty());
    let zone = geo.drop_zone(Side::Left);
    assert_eq!(
        geo.drop_target(center(zone)),
        DropTarget::NewColumn { side: Side::Left, column: 0 }
    );
}

#[test]
fn the_middle_of_the_canvas_floats() {
    let layout = Layout::default();
    let geo = layout.geometry(rect(0.0, 0.0, 1440.0, 900.0));
    assert_eq!(geo.drop_target(center(geo.canvas)), DropTarget::Float);
}

#[test]
fn a_drag_lifts_the_panel_and_puts_it_back() {
    let mut layout = Layout::default();
    layout.set_edit_mode(true);
    let before = layout.to_config();

    layout.begin_drag(
        PanelKind::Brushes,
        pos2(1200.0, 400.0),
        rect(1176.0, 380.0, 264.0, 200.0),
    );
    assert!(layout.is_dragging());
    assert!(!layout.is_open(PanelKind::Brushes));
    assert_eq!(layout.docked(Side::Right, DOCK).len(), 2);

    layout.cancel_drag();
    assert!(!layout.is_dragging());
    assert_eq!(layout.to_config(), before);
}

/// A drag that empties a column leaves it standing until the drop resolves.
#[test]
fn a_column_emptied_by_a_drag_survives_until_the_drop() {
    let mut layout = two_columns_on_the_right();
    layout.set_edit_mode(true);

    layout.begin_drag(
        PanelKind::Layers,
        pos2(1400.0, 200.0),
        rect(1176.0, 180.0, 264.0, 200.0),
    );
    assert_eq!(
        layout.columns(Side::Right).len(),
        2,
        "the column it emptied is still there"
    );
    assert!(layout.columns(Side::Right)[0].panels.is_empty());
    // And the empty one is never written down.
    assert_eq!(layout.to_config().matches("column right").count(), 1);

    layout.end_drag(DropTarget::Float);
    assert_eq!(layout.columns(Side::Right).len(), 1, "and then it goes");
}

#[test]
fn a_drag_can_move_a_panel_across_sides() {
    let mut layout = Layout::default();
    layout.set_edit_mode(true);
    layout.begin_drag(
        PanelKind::Layers,
        pos2(1200.0, 700.0),
        rect(1176.0, 680.0, 264.0, 200.0),
    );
    layout.end_drag(DropTarget::NewColumn { side: Side::Left, column: 0 });
    assert_eq!(kinds(&layout, Side::Left, 0), vec![PanelKind::Layers]);
    assert_eq!(layout.docked(Side::Right, DOCK).len(), 2);
}

#[test]
fn a_drag_can_tear_a_panel_off_and_re_dock_it() {
    let mut layout = Layout::default();
    layout.set_edit_mode(true);
    layout.begin_drag(
        PanelKind::Colour,
        pos2(1200.0, 200.0),
        rect(1176.0, 180.0, 264.0, 340.0),
    );
    layout.drag_to(pos2(600.0, 400.0));
    layout.end_drag(DropTarget::Float);
    assert_eq!(layout.floating().len(), 1);
    assert_eq!(layout.docked(Side::Right, DOCK).len(), 2);

    let r = layout.floating()[0].rect;
    layout.begin_drag(PanelKind::Colour, center(r), r);
    layout.end_drag(DropTarget::Dock { side: Side::Right, column: DOCK, index: 0 });
    assert!(layout.floating().is_empty());
    assert_eq!(layout.docked(Side::Right, DOCK)[0].kind, PanelKind::Colour);
}

/// A column moved somewhere else keeps the width it was dragged to.
#[test]
fn a_column_dropped_somewhere_else_keeps_its_width() {
    let mut layout = two_columns_on_the_right();
    layout.set_width(Side::Right, 0, pt(210.0));
    layout.set_edit_mode(true);

    layout.begin_drag(
        PanelKind::Layers,
        pos2(1400.0, 200.0),
        rect(1176.0, 180.0, 210.0, 200.0),
    );
    layout.end_drag(DropTarget::NewColumn { side: Side::Left, column: 0 });
    assert_eq!(layout.width(Side::Left, 0), pt(210.0));
    assert_eq!(kinds(&layout, Side::Left, 0), vec![PanelKind::Layers]);
}

#[test]
fn closing_and_reopening_keeps_one_of_each() {
    let mut layout = Layout::default();
    layout.close(PanelKind::Brushes);
    assert!(!layout.is_open(PanelKind::Brushes));
    layout.open(PanelKind::Brushes);
    layout.open(PanelKind::Brushes);
    let count: usize = Side::all()
        .iter()
        .flat_map(|s| layout.columns(*s))
        .map(|c| c.panels.iter().filter(|d| d.kind == PanelKind::Brushes).count())
        .sum();
    assert_eq!(count, 1);
}

/// Closing the only module in a column takes the column with it.
#[test]
fn closing_the_last_module_in_a_column_removes_the_column() {
    let mut layout = two_columns_on_the_right();
    layout.close(PanelKind::Layers);
    assert_eq!(layout.columns(Side::Right).len(), 1);
    assert_eq!(
        kinds(&layout, Side::Right, 0),
        vec![PanelKind::Colour, PanelKind::Brushes]
    );
}

#[test]
fn config_round_trips() {
    let mut layout = Layout::default();
    layout.set_edit_mode(true);
    layout.set_width(Side::Right, DOCK, pt(300.0));
    layout.begin_drag(
        PanelKind::Colour,
        pos2(1200.0, 200.0),
        rect(1176.0, 180.0, 264.0, 340.0),
    );
    layout.drag_to(pos2(500.0, 300.0));
    layout.end_drag(DropTarget::Float);
    layout.begin_drag(
        PanelKind::Layers,
        pos2(1200.0, 700.0),
        rect(1176.0, 680.0, 264.0, 200.0),
    );
    layout.end_drag(DropTarget::NewColumn { side: Side::Left, column: 0 });

    let text = layout.to_config();
    let back = Layout::from_config(&text).expect("valid config");
    assert_eq!(back.to_config(), text);
    assert_eq!(back.columns(Side::Left), layout.columns(Side::Left));
    assert_eq!(back.columns(Side::Right), layout.columns(Side::Right));
    assert_eq!(back.floating(), layout.floating());
}

/// Several columns a side, with their own widths, have to come back in the same
/// order, outermost first.
#[test]
fn several_columns_a_side_round_trip_in_order() {
    let mut layout = Layout::default();
    layout.set_edit_mode(true);
    for (kind, column) in [(PanelKind::Colour, 0), (PanelKind::Brushes, 1)] {
        layout.begin_drag(kind, pos2(0.0, 0.0), rect(0.0, 0.0, 264.0, 200.0));
        layout.end_drag(DropTarget::NewColumn { side: Side::Right, column });
    }
    layout.set_width(Side::Right, 0, pt(240.0));
    layout.set_width(Side::Right, 1, pt(320.0));
    assert_eq!(layout.columns(Side::Right).len(), 3);

    let text = layout.to_config();
    let back = Layout::from_config(&text).expect("valid config");
    assert_eq!(back.to_config(), text);
    assert_eq!(kinds(&back, Side::Right, 0), vec![PanelKind::Colour]);
    assert_eq!(kinds(&back, Side::Right, 1), vec![PanelKind::Brushes]);
    assert_eq!(back.width(Side::Right, 0), pt(240.0));
    assert_eq!(back.width(Side::Right, 1), pt(320.0));
}

#[test]
fn a_config_from_another_version_is_refused() {
    assert!(Layout::from_config("umber-layout 9\nrail left\n").is_none());
    assert!(Layout::from_config("").is_none());
}

#[test]
fn a_damaged_config_loses_only_the_damaged_lines() {
    let text = "umber-layout 1\n\
                rail sideways\n\
                column right not-a-number\n\
                column right 300\n\
                dock right colour 3\n\
                dock right colour 9\n\
                column left 200\n\
                dock left brushes 1\n\
                column left 250\n\
                nonsense here\n";
    let layout = Layout::from_config(text).expect("still loads");
    assert_eq!(layout.width(Side::Right, 0), pt(300.0));
    assert_eq!(
        layout.docked(Side::Right, 0).len(),
        1,
        "the duplicate is dropped"
    );
    assert_eq!(layout.docked(Side::Left, 0).len(), 1);
    assert_eq!(
        layout.columns(Side::Left).len(),
        1,
        "a column with nothing under it is not a column"
    );
    assert!(
        !layout.is_open(PanelKind::Layers),
        "an absent panel is closed"
    );
}

#[test]
fn a_stranded_floating_panel_is_pulled_back() {
    let mut layout = Layout::default();
    layout.close(PanelKind::Layers);
    layout.floating.push(Floating {
        kind: PanelKind::Layers,
        rect: rect(4000.0, 3000.0, 260.0, 300.0),
    });
    let workspace = rect(0.0, 70.0, 1440.0, 800.0);
    layout.clamp_floating(workspace);

    let r = layout.floating()[0].rect;
    assert!(r.min.x <= workspace.max.x - limits::FLOAT_KEEP_VISIBLE);
    assert!(r.min.y <= workspace.max.y - metrics::PANEL_HEADER);
    assert!(r.min.y >= workspace.min.y);
}

#[test]
fn edit_mode_pauses_the_canvas_and_a_drag_keeps_it_paused() {
    // A panel dragged across the canvas must not leave paint behind it.
    let mut layout = Layout::default();
    assert!(!layout.blocks_canvas(pos2(600.0, 400.0)));

    layout.set_edit_mode(true);
    assert!(
        layout.blocks_canvas(pos2(600.0, 400.0)),
        "edit mode pauses it"
    );

    layout.begin_drag(
        PanelKind::Colour,
        pos2(1200.0, 200.0),
        rect(1176.0, 180.0, 264.0, 340.0),
    );
    layout.drag_to(pos2(600.0, 400.0));
    assert!(layout.blocks_canvas(pos2(600.0, 400.0)));
}

#[test]
fn panels_are_locked_outside_edit_mode() {
    let mut layout = Layout::default();
    layout.begin_drag(
        PanelKind::Colour,
        pos2(1200.0, 200.0),
        rect(1176.0, 180.0, 264.0, 340.0),
    );
    assert!(!layout.is_dragging());
    assert!(layout.is_open(PanelKind::Colour), "and it stayed put");
}

#[test]
fn leaving_edit_mode_abandons_a_drag_in_progress() {
    let mut layout = Layout::default();
    layout.set_edit_mode(true);
    let before = layout.to_config();
    layout.begin_drag(
        PanelKind::Brushes,
        pos2(1200.0, 400.0),
        rect(1176.0, 380.0, 264.0, 200.0),
    );
    layout.drag_to(pos2(600.0, 400.0));
    layout.set_edit_mode(false);
    assert!(!layout.is_dragging());
    assert_eq!(layout.to_config(), before, "the panel went back");
}

/// The module not in the default arrangement still has to survive being placed
/// and written out.
#[test]
fn the_history_module_round_trips_through_the_config() {
    let mut layout = Layout::default();
    assert!(
        !layout.is_open(PanelKind::History),
        "History is not in the shipped arrangement",
    );
    layout.set_edit_mode(true);
    layout.open(PanelKind::History);
    layout.begin_drag(
        PanelKind::History,
        pos2(1200.0, 700.0),
        rect(1176.0, 680.0, 264.0, 200.0),
    );
    layout.end_drag(DropTarget::NewColumn { side: Side::Left, column: 0 });

    let text = layout.to_config();
    assert!(text.contains("history"), "{text}");
    let back = Layout::from_config(&text).expect("valid config");
    assert_eq!(back.to_config(), text);
    assert_eq!(back.docked(Side::Left, 0)[0].kind, PanelKind::History);
}

/// A layout file from before columns loads as one column a side, at the width
/// the `width` line gives.
#[test]
fn a_config_written_before_columns_loads_as_one_column_a_side() {
    let text = "umber-layout 1\n\
                rail left\n\
                width left 264\n\
                dock left history 2\n\
                width right 300\n\
                dock right colour 3\n\
                dock right brushes 1.3\n\
                dock right layers 2.2\n";
    let layout = Layout::from_config(text).expect("still loads");

    assert_eq!(
        layout.columns(Side::Right).len(),
        1,
        "one column, as before"
    );
    assert_eq!(
        kinds(&layout, Side::Right, 0),
        vec![PanelKind::Colour, PanelKind::Brushes, PanelKind::Layers]
    );
    assert_eq!(layout.width(Side::Right, 0), pt(300.0), "and at its own width");
    // The stack's own proportions come back untouched.
    assert_eq!(
        weights(&layout, Side::Right, 0),
        vec![wt(3.0), wt(1.3), wt(2.2)]
    );

    // The left side had the rail and a module, and the rail was drawn outside
    // the sidebar, so it arrives as the outer column of two.
    assert_eq!(layout.columns(Side::Left).len(), 2);
    assert_eq!(kinds(&layout, Side::Left, 0), vec![PanelKind::Tools]);
    assert_eq!(kinds(&layout, Side::Left, 1), vec![PanelKind::History]);
    assert_eq!(layout.width(Side::Left, 1), pt(264.0));
}

/// A file from before the rail was a module says only which edge it was on, and
/// opens with the rail on that edge.
#[test]
fn a_config_written_before_the_rail_was_a_module_still_has_a_rail() {
    for (side, other) in [(Side::Left, Side::Right), (Side::Right, Side::Left)] {
        let text = format!(
            "umber-layout 1\nrail {}\nwidth right 264\ndock right colour 3\n",
            side.key()
        );
        let layout = Layout::from_config(&text).expect("still loads");
        assert!(layout.is_open(PanelKind::Tools), "{side:?}");
        assert_eq!(
            kinds(&layout, side, 0),
            vec![PanelKind::Tools],
            "outermost on {side:?}, which is where it was drawn",
        );
        assert_eq!(
            layout.width(side, 0),
            limits::SIDEBAR_MIN_WIDTH,
            "at the width a fresh install gives it, not the old rail's",
        );
        // And nothing was invented on the other edge.
        assert!(!kinds(&layout, other, 0).contains(&PanelKind::Tools));
    }
}

/// Removing the rail has to stick.
#[test]
fn a_removed_tool_rail_stays_removed_across_a_save() {
    let mut layout = Layout::default();
    layout.close(PanelKind::Tools);
    let text = layout.to_config();
    assert!(!text.contains("rail"), "{text}");
    let back = Layout::from_config(&text).expect("valid config");
    assert!(!back.is_open(PanelKind::Tools));
}

/// The rail's column opens at an ordinary column's minimum and is then the
/// user's, either way.
#[test]
fn the_rails_column_starts_where_a_column_bottoms_out_and_moves_both_ways() {
    let migrated =
        Layout::from_config("umber-layout 1\nrail left\ndock right colour 3\n").expect("loads");
    for mut layout in [Layout::default(), migrated] {
        assert_eq!(kinds(&layout, Side::Left, 0), vec![PanelKind::Tools]);
        assert_eq!(layout.width(Side::Left, 0), limits::SIDEBAR_MIN_WIDTH);

        layout.set_width(Side::Left, 0, limits::SIDEBAR_MIN_WIDTH + pt(60.0));
        assert_eq!(
            layout.width(Side::Left, 0),
            limits::SIDEBAR_MIN_WIDTH + pt(60.0),
            "and it widens",
        );
        layout.set_width(Side::Left, 0, limits::SIDEBAR_MIN_WIDTH - pt(40.0));
        assert_eq!(
            layout.width(Side::Left, 0),
            limits::SIDEBAR_MIN_WIDTH - pt(40.0),
            "and it narrows, because the floor is the rail's own",
        );
    }
}

/// The rail's column may be dragged narrower than any other, and dropping an
/// ordinary module into it raises the floor again.
#[test]
fn the_rails_column_may_be_narrower_than_a_modules() {
    let mut layout = Layout::default();
    assert!(PanelKind::Tools.min_width() < limits::SIDEBAR_MIN_WIDTH);

    layout.set_width(Side::Left, 0, pt(10.0));
    assert_eq!(layout.width(Side::Left, 0), PanelKind::Tools.min_width());

    layout.set_edit_mode(true);
    layout.begin_drag(
        PanelKind::Colour,
        pos2(1200.0, 200.0),
        rect(1176.0, 180.0, 264.0, 340.0),
    );
    layout.end_drag(DropTarget::Dock { side: Side::Left, column: 0, index: 1 });
    layout.set_width(Side::Left, 0, 0);
    assert_eq!(layout.width(Side::Left, 0), limits::SIDEBAR_MIN_WIDTH);
}

/// A rail at its narrowest, as a user leaves it.
fn narrowed_rail() -> Layout {
    let mut layout = Layout::default();
    layout.set_width(Side::Left, 0, pt(10.0));
    layout.set_edit_mode(true);
    layout
}

/// A picker is never three buttons across: what is dropped into a rail widens it.
#[test]
fn a_module_dropped_into_the_rail_widens_it() {
    let mut layout = narrowed_rail();
    layout.begin_drag(
        PanelKind::Colour,
        pos2(1200.0, 200.0),
        rect(1176.0, 180.0, 264.0, 340.0),
    );
    layout.end_drag(DropTarget::Dock { side: Side::Left, column: 0, index: 1 });
    assert_eq!(kinds(&layout, Side::Left, 0), vec![PanelKind::Tools, PanelKind::Colour]);
    assert_eq!(layout.width(Side::Left, 0), limits::SIDEBAR_MIN_WIDTH);

    // A column that is wide enough keeps the width it has.
    let mut wide = Layout::default();
    wide.set_width(Side::Left, 0, pt(300.0));
    wide.set_edit_mode(true);
    wide.begin_drag(
        PanelKind::Colour,
        pos2(1200.0, 200.0),
        rect(1176.0, 180.0, 264.0, 340.0),
    );
    wide.end_drag(DropTarget::Dock { side: Side::Left, column: 0, index: 0 });
    assert_eq!(wide.width(Side::Left, 0), pt(300.0));
}

#[test]
fn a_module_reopened_into_the_rail_widens_it() {
    let mut layout = narrowed_rail();
    for kind in [PanelKind::Colour, PanelKind::Brushes, PanelKind::Layers] {
        layout.close(kind);
    }
    layout.open(PanelKind::Brushes);
    assert_eq!(kinds(&layout, Side::Left, 0), vec![PanelKind::Tools, PanelKind::Brushes]);
    assert_eq!(layout.width(Side::Left, 0), limits::SIDEBAR_MIN_WIDTH);
}

/// Lifting the rail and thinking better of it leaves it as narrow as it was.
#[test]
fn a_narrow_rail_put_back_is_still_narrow() {
    let mut layout = narrowed_rail();
    layout.begin_drag(PanelKind::Tools, pos2(20.0, 200.0), rect(0.0, 70.0, 44.0, 800.0));
    layout.cancel_drag();
    assert_eq!(layout.width(Side::Left, 0), PanelKind::Tools.min_width());
}

/// The document keeps its least width to the grid step, however many columns
/// there are.
#[test]
fn a_crowded_workspace_leaves_the_least_canvas() {
    let layout = Layout::default();
    let geo = layout.geometry(rect(0.0, 0.0, 400.0, 800.0));
    assert!(geo.canvas.width() >= limits::CANVAS_MIN_WIDTH);
    let geo = layout.geometry(rect(0.0, 0.0, 150.0, 800.0));
    assert_eq!(geo.canvas.width(), pt(150.0));
}

/// What a weight says past six decimals goes to the nearest.
#[test]
fn a_weight_is_read_to_the_nearest_step() {
    let read = |weight: &str| {
        let text = format!("umber-layout 1\ncolumn right 264\ndock right colour {weight}\n");
        let layout = Layout::from_config(&text).expect("loads");
        weights(&layout, Side::Right, 0)[0]
    };
    assert_eq!(read("0.0000005"), 1);
    assert_eq!(read("0.0000004999"), 0);
    assert_eq!(read("0.00004"), 40);
    assert_eq!(read("1.23456"), 1_234_560);
    assert_eq!(read("1.23456789"), 1_234_568);
    assert_eq!(read("2.5"), 2_500_000);
}

/// A weight is written to four decimals, and comes back as it was written.
#[test]
fn a_weight_is_written_to_four_decimals() {
    let text = "umber-layout 1\ncolumn right 264\ndock right colour 1.23456\n";
    let layout = Layout::from_config(text).expect("loads");
    let written = layout.to_config();
    assert!(written.contains("dock right colour 1.2346\n"), "{written}");
    let back = Layout::from_config(&written).expect("loads");
    assert_eq!(weights(&back, Side::Right, 0), vec![1_234_600]);
    assert_eq!(back.to_config(), written);
}

/// A width goes to the nearest whole point, once.
#[test]
fn a_width_is_read_to_the_nearest_point() {
    let read = |width: &str| {
        let text = format!("umber-layout 1\ncolumn right {width}\ndock right colour 1\n");
        Layout::from_config(&text).expect("loads").width(Side::Right, 0)
    };
    assert_eq!(read("264.49996"), pt(264.0));
    assert_eq!(read("264.499999999999"), pt(264.0));
    assert_eq!(read("264.5"), pt(265.0));
    assert_eq!(read("264"), pt(264.0));
    let old = "umber-layout 1\nwidth right 264.49996\ndock right colour 1\n";
    assert_eq!(Layout::from_config(old).expect("loads").width(Side::Right, 0), pt(264.0));
}

/// What rounds to nothing is written without a sign, so that a layout that was
/// read is written as it was.
#[test]
fn a_place_that_rounds_to_nothing_has_no_sign() {
    let text = "umber-layout 1\nfloat layers -0.04 -0.06 300.0 400.0\n";
    let layout = Layout::from_config(text).expect("loads");
    let written = layout.to_config();
    assert!(written.contains("float layers 0.0 -0.1 300.0 400.0\n"), "{written}");
    let back = Layout::from_config(&written).expect("loads");
    assert_eq!(back.to_config(), written);
}

/// A removed module must be able to come back.
#[test]
fn a_removed_module_can_be_added_back() {
    let mut layout = Layout::default();
    layout.close(PanelKind::Layers);
    assert!(!layout.is_open(PanelKind::Layers));
    assert_eq!(layout.docked(Side::Right, DOCK).len(), 2);

    layout.add_dragging(PanelKind::Layers, pos2(600.0, 400.0));
    layout.end_drag(DropTarget::Dock { side: Side::Right, column: DOCK, index: 2 });
    assert!(layout.is_open(PanelKind::Layers));
    assert_eq!(layout.docked(Side::Right, DOCK).len(), 3);
}

/// Adding from the library leaves the module in the pointer's hand, in the mode
/// where it can be put down.
#[test]
fn adding_a_module_picks_it_up_ready_to_be_dropped() {
    let mut layout = Layout::default();
    assert!(!layout.edit_mode());

    assert!(layout.add_dragging(PanelKind::History, pos2(600.0, 400.0)));
    assert!(layout.edit_mode(), "a module in the air needs the mode");
    assert!(layout.is_dragging());
    let drag = layout.drag().expect("a drag");
    assert_eq!(drag.kind, PanelKind::History);
    assert!(drag.sticky, "the button that added it is already up");
    assert!(
        !layout.is_open(PanelKind::History),
        "it is in the air, not in the layout",
    );

    // A second request while one is in flight is refused rather than replacing
    // the module the user is already holding.
    assert!(!layout.add_dragging(PanelKind::Colour, pos2(10.0, 10.0)));

    layout.drag_to(pos2(200.0, 500.0));
    layout.end_drag(DropTarget::Float);
    assert_eq!(layout.floating().len(), 1);
    assert_eq!(layout.floating()[0].kind, PanelKind::History);
}

/// Escape during the pick-up abandons the add.
#[test]
fn cancelling_an_add_leaves_the_layout_as_it_was() {
    let mut layout = Layout::default();
    layout.set_edit_mode(true);
    let before = layout.to_config();

    layout.add_dragging(PanelKind::History, pos2(600.0, 400.0));
    layout.cancel_drag();

    assert!(!layout.is_open(PanelKind::History));
    assert_eq!(layout.to_config(), before);
}

/// And the same for a module lifted out of a column of its own.
#[test]
fn cancelling_a_drag_out_of_a_lone_column_puts_the_column_back() {
    let mut layout = two_columns_on_the_right();
    layout.set_edit_mode(true);
    let before = layout.to_config();

    layout.begin_drag(
        PanelKind::Layers,
        pos2(1400.0, 200.0),
        rect(1176.0, 180.0, 264.0, 200.0),
    );
    layout.drag_to(pos2(600.0, 400.0));
    layout.cancel_drag();

    assert_eq!(layout.to_config(), before);
    assert_eq!(layout.columns(Side::Right).len(), 2);
}

/// A sticky drag ends on the next press, and not before the pointer has been
/// seen up.
#[test]
fn a_picked_up_module_waits_for_the_click_that_puts_it_down() {
    let mut layout = Layout::default();
    layout.add_dragging(PanelKind::History, pos2(600.0, 400.0));

    // The same frame the library was clicked on: press and release both
    // reported, and nothing must be dropped.
    assert!(!layout.drag_should_drop(false, true));
    // Pointer idle over the canvas.
    assert!(!layout.drag_should_drop(false, false));
    // And now a real press.
    assert!(layout.drag_should_drop(true, true));

    // An ordinary drag is unchanged: it ends when the button comes up.
    let mut layout = Layout::default();
    layout.set_edit_mode(true);
    layout.begin_drag(
        PanelKind::Colour,
        pos2(1200.0, 200.0),
        rect(1176.0, 180.0, 264.0, 340.0),
    );
    assert!(!layout.drag_should_drop(true, false));
    assert!(layout.drag_should_drop(false, false));
}

#[test]
fn a_floating_panel_blocks_the_canvas_under_it() {
    let mut layout = Layout::default();
    layout.close(PanelKind::Layers);
    layout.floating.push(Floating {
        kind: PanelKind::Layers,
        rect: rect(600.0, 300.0, 260.0, 300.0),
    });
    assert!(layout.blocks_canvas(pos2(700.0, 400.0)));
    assert!(!layout.blocks_canvas(pos2(400.0, 400.0)));
}

// --- the edges ---------------------------------------------------------------

/// What the shipped arrangement is written as, line for line.
#[test]
fn the_shipped_layout_is_written_line_for_line() {
    assert_eq!(
        Layout::default().to_config(),
        "umber-layout 1\n\
         column left 190\n\
         dock left tools 1.0000\n\
         column right 264\n\
         dock right colour 3.0000\n\
         dock right brushes 1.3000\n\
         dock right layers 2.2000\n"
    );
}

/// Numbers in a file are read as they are written anywhere: with an exponent, a
/// sign, no digits before the point, or none after it.
#[test]
fn a_config_reads_numbers_in_every_spelling() {
    for (written, weight) in [
        ("3e0", wt(3.0)),
        ("+2.5", wt(2.5)),
        (".5", wt(0.5)),
        ("4.", wt(4.0)),
        ("12.5E-1", wt(1.25)),
    ] {
        let text = format!("umber-layout 1\ncolumn right 300\ndock right colour {written}\n");
        let layout = Layout::from_config(&text).expect("loads");
        assert_eq!(weights(&layout, Side::Right, 0), vec![weight], "{written}");
    }
}

/// A weight that is no number at all is an ordinary one, and one too large is
/// held to the largest there is.
#[test]
fn a_weight_that_cannot_be_read_is_an_ordinary_one() {
    let text = "umber-layout 1\ncolumn right 300\n\
                dock right colour x\ndock right layers 1e6\ndock right brushes -3\n";
    let layout = Layout::from_config(text).expect("loads");
    assert_eq!(
        weights(&layout, Side::Right, 0),
        vec![wt(1.0), limits::WEIGHT_MAX, 0]
    );
}

/// A floating panel whose place cannot be read costs its line, and one that can
/// is held to the sizes a floating panel may have.
#[test]
fn a_floating_panel_is_read_whole_or_not_at_all() {
    let text = "umber-layout 1\nfloat colour 10 20 x 300\nfloat layers 10 20 9999 1\n\
                float history 1 2 nan 300\n";
    let layout = Layout::from_config(text).expect("loads");
    assert_eq!(layout.floating().len(), 1);
    assert_eq!(layout.floating()[0].kind, PanelKind::Layers);
    assert_eq!(
        layout.floating()[0].rect,
        Rect {
            min: pos2(10.0, 20.0),
            max: Pos2 {
                x: pt(10.0) + limits::FLOAT_MAX_WIDTH,
                y: pt(20.0) + limits::FLOAT_MIN_HEIGHT,
            },
        }
    );
}

/// A width too large is held to the widest column, and one that is not finite
/// costs its line: the panel then opens a column of its own.
#[test]
fn a_width_beyond_every_bound_is_held_to_the_widest_column() {
    let layout = Layout::from_config("umber-layout 1\ncolumn right 1e9\ndock right colour 1\n")
        .expect("loads");
    assert_eq!(layout.width(Side::Right, 0), limits::SIDEBAR_MAX_WIDTH);
    let layout = Layout::from_config("umber-layout 1\ncolumn right inf\ndock right colour 1\n")
        .expect("loads");
    assert_eq!(layout.width(Side::Right, 0), metrics::PANEL);
}

/// Every rectangle stays sane at the far end of what a coordinate may be.
#[test]
fn a_window_at_the_edge_of_reach_still_has_a_layout() {
    let layout = Layout::default();
    let geo = layout.geometry(Rect {
        min: Pos2 { x: -REACH, y: -REACH },
        max: Pos2 { x: REACH, y: REACH },
    });
    for r in every_rect(&geo) {
        assert!(r.width() >= 0 && r.height() >= 0, "{r:?}");
    }
}

/// A module is where the layout says it is, and a closed one is nowhere.
#[test]
fn a_module_is_found_where_it_was_put() {
    let layout = Layout::default();
    assert!(matches!(
        layout.place_of(PanelKind::Brushes),
        Some(Origin::Dock { side: Side::Right, column: 0, index: 1, .. })
    ));
    assert!(layout.place_of(PanelKind::History).is_none());
}

/// Raising a floating panel puts it in front, and leaves the others in order.
#[test]
fn raising_a_panel_puts_it_in_front() {
    let mut layout = Layout::default();
    for kind in [PanelKind::Colour, PanelKind::Brushes, PanelKind::Layers] {
        layout.close(kind);
        layout.floating.push(Floating { kind, rect: rect(100.0, 100.0, 260.0, 300.0) });
    }
    layout.raise(PanelKind::Colour);
    let order: Vec<PanelKind> = layout.floating().iter().map(|f| f.kind).collect();
    assert_eq!(
        order,
        vec![PanelKind::Brushes, PanelKind::Layers, PanelKind::Colour]
    );
}

/// A layout is written once for each change, and never with a panel in the air.
#[test]
fn a_layout_is_written_once_and_not_mid_drag() {
    let mut layout = Layout::default();
    assert!(layout.save_if_dirty().is_none());
    layout.set_width(Side::Right, DOCK, pt(300.0));
    let text = layout.save_if_dirty().expect("something changed");
    assert_eq!(text, layout.to_config());
    assert!(layout.save_if_dirty().is_none(), "nothing since");

    layout.set_edit_mode(true);
    layout.begin_drag(
        PanelKind::Colour,
        pos2(1200.0, 200.0),
        rect(1176.0, 180.0, 264.0, 340.0),
    );
    assert!(layout.save_if_dirty().is_none(), "a panel is in the air");
    layout.end_drag(DropTarget::Float);
    assert!(layout.save_if_dirty().is_some());
}

/// What is kept is what comes back, and anything else is the shipped layout.
#[test]
fn a_kept_layout_comes_back_and_a_bad_one_does_not() {
    let mut layout = Layout::default();
    layout.close(PanelKind::Brushes);
    let text = layout.to_config();
    assert_eq!(Layout::load_or_default(Some(&text)).to_config(), text);
    let shipped = Layout::default().to_config();
    assert_eq!(Layout::load_or_default(None).to_config(), shipped);
    assert_eq!(Layout::load_or_default(Some("not one of ours")).to_config(), shipped);
}

#[test]
fn resetting_puts_the_shipped_layout_back() {
    let mut layout = two_columns_on_the_right();
    layout.reset();
    assert_eq!(layout.to_config(), Layout::default().to_config());
}

#[test]
fn the_layout_file_is_where_each_desktop_keeps_such_files() {
    let places = |appdata: Option<&str>, home: Option<&str>, xdg: Option<&str>| Places {
        appdata: appdata.map(str::to_string),
        home: home.map(str::to_string),
        xdg_config_home: xdg.map(str::to_string),
    };
    assert_eq!(
        config_path(Platform::Windows, places(Some("C:/a"), Some("/h"), None)),
        Some(("C:/a".to_string(), "Umber"))
    );
    assert_eq!(config_path(Platform::Windows, places(None, Some("/h"), None)), None);
    assert_eq!(
        config_path(Platform::MacOs, places(None, Some("/h"), Some("/x"))),
        Some(("/h".to_string(), "Library/Application Support/Umber"))
    );
    assert_eq!(
        config_path(Platform::Other, places(None, Some("/h"), Some("/x"))),
        Some(("/x".to_string(), "umber"))
    );
    assert_eq!(
        config_path(Platform::Other, places(None, Some("/h"), None)),
        Some(("/h".to_string(), ".config/umber"))
    );
    assert_eq!(config_path(Platform::Other, places(None, None, None)), None);
    assert_eq!(FILE, "layout.conf");
}

/// Every module and each side is read back from what it is written as.
#[test]
fn every_key_names_its_own_module() {
    for kind in PanelKind::all() {
        assert_eq!(PanelKind::from_key(kind.key()), Some(kind));
    }
    for side in Side::all() {
        assert_eq!(Side::from_key(side.key()), Some(side));
    }
    assert_eq!(PanelKind::from_key("Colour"), None);
    assert_eq!(Side::from_key("top"), None);
}

/// A float that is moved goes where it is put, and only a change is written out.
#[test]
fn moving_a_float_marks_the_layout_changed() {
    let text = "umber-layout 1\nfloat layers 10.0 20.0 300.0 400.0\n";
    let mut layout = Layout::from_config(text).unwrap();
    let was = layout.floating()[0].rect;
    layout.set_float_rect(PanelKind::Layers, was);
    assert!(!layout.dirty, "nothing moved");
    layout.set_float_rect(PanelKind::Colour, rect(1.0, 1.0, 300.0, 300.0));
    assert!(!layout.dirty, "nothing of that kind floats");
    let next = rect(50.0, 60.0, 300.0, 400.0);
    layout.set_float_rect(PanelKind::Layers, next);
    assert_eq!(layout.floating()[0].rect, next);
    assert!(layout.dirty);
}

#[test]
fn every_module_says_what_it_is_for() {
    for kind in PanelKind::all() {
        assert!(kind.description().ends_with('.'), "{}", kind.title());
    }
    assert_eq!(
        PanelKind::Layers.description(),
        "The layer stack: order, visibility, opacity and blend mode.",
    );
}
