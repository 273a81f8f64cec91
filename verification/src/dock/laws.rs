//! What holds of a layout whatever is done to it.

use crate::dock::count::{
    lemma_column_index, lemma_column_tally_bounds, lemma_float_index, lemma_float_tally_bounds,
    lemma_place_found, lemma_pruned, lemma_pruned_around, lemma_stack_small, one_if,
};
use crate::dock::geometry::{
    canvas_after, column_share, column_under, in_band, inner_edge, lemma_canvas_after,
    lemma_column_share,
    outer_edge, plans_of, upright_of, weights_of, Plan,
};
use crate::dock::heights::{
    beyond_minimums, equal_shares, fine, height_sum, heights_honour_the_minimum,
    heights_written_back_are_kept, lemma_stack_ends, lemma_written_back, settled, shared_out,
    stack_height, stack_top, weight_of_height, weight_sum,
};
use crate::dock::keep::{
    lemma_cancelled, lemma_closed, lemma_dropped, lemma_float_moved, lemma_lifted, lemma_opened,
    lemma_picked_up, lemma_raised, lemma_shipped, lemma_widened, lemma_without,
};
use crate::dock::kind::{PanelKind, Side};
use crate::dock::limits;
use crate::dock::model::{
    column_index, float_index, lemma_widest_found, lemma_widest_minimum, panel_index, place_in, pruned_columns, spare, spare_weights, split_delta,
    split_heights, weighted, with_panels, ColumnView, Docked, DropTarget, Floating, LayoutView,
    Origin,
};
use crate::geom::{max_of, min_of, Pos2, Rect, POINT, REACH};
use crate::metrics;
use vstd::prelude::*;

verus! {

// --- one of each ------------------------------------------------------------

/// The shipped arrangement holds at most one of each module.
pub proof fn shipped_has_one_of_each()
    ensures
        LayoutView::shipped().sound(),
        LayoutView::shipped().one_of_each(),
{
    lemma_shipped();
}

/// Moving things about never doubles a module: no drag, drop, cancel, close,
/// resize or raise leaves two of one.
pub proof fn moving_keeps_one_of_each(
    v: LayoutView,
    k: PanelKind,
    pointer: Pos2,
    rect: Rect,
    target: DropTarget,
    side: Side,
    column: int,
    width: int,
)
    requires
        v.sound(),
        v.one_of_each(),
        pointer.in_reach(),
        rect.in_reach(),
    ensures
        v.lifted(k, pointer, rect).one_of_each(),
        v.picked_up(k, pointer).one_of_each(),
        v.dragged_to(pointer).one_of_each(),
        v.dropped(target).one_of_each(),
        v.cancelled().one_of_each(),
        v.closed(k).one_of_each(),
        v.widened(side, column, width).one_of_each(),
        v.float_moved(k, rect).one_of_each(),
        v.raised(k).one_of_each(),
{
    lemma_lifted(v, k, pointer, rect);
    lemma_picked_up(v, k, pointer);
    lemma_dropped(v, target);
    lemma_cancelled(v);
    lemma_closed(v, k);
    lemma_widened(v, side, column, width);
    lemma_float_moved(v, k, rect);
    lemma_raised(v, k);
    lemma_place_found(v, k);
    assert forall|j: PanelKind| #[trigger] v.lifted(k, pointer, rect).tally(j) <= 1 by {
        assert(v.tally(j) <= 1);
    }
    assert forall|j: PanelKind| #[trigger] v.picked_up(k, pointer).tally(j) <= 1 by {
        assert(v.tally(j) <= 1);
        lemma_column_tally_bounds(v.left, j);
        lemma_column_tally_bounds(v.right, j);
        lemma_float_tally_bounds(v.floating, j);
    }
    assert forall|j: PanelKind| #[trigger] v.dragged_to(pointer).tally(j) <= 1 by {
        assert(v.tally(j) <= 1);
        assert(v.dragged_to(pointer).placed(j) == v.placed(j));
    }
    assert forall|j: PanelKind| #[trigger] v.dropped(target).tally(j) <= 1 by {
        assert(v.tally(j) <= 1);
    }
    assert forall|j: PanelKind| #[trigger] v.cancelled().tally(j) <= 1 by {
        assert(v.tally(j) <= 1);
    }
    assert forall|j: PanelKind| #[trigger] v.closed(k).tally(j) <= 1 by {
        assert(v.tally(j) <= 1);
    }
    assert forall|j: PanelKind| #[trigger] v.widened(side, column, width).tally(j) <= 1 by {
        assert(v.tally(j) <= 1);
    }
    assert forall|j: PanelKind| #[trigger] v.float_moved(k, rect).tally(j) <= 1 by {
        assert(v.tally(j) <= 1);
    }
    assert forall|j: PanelKind| #[trigger] v.raised(k).tally(j) <= 1 by {
        assert(v.tally(j) <= 1);
    }
}

/// Opening a module that is not in the pointer's hand leaves one of it, however
/// often it is asked for.
pub proof fn opening_keeps_one_of_each(v: LayoutView, k: PanelKind)
    requires
        v.sound(),
        v.one_of_each(),
        !v.held(k),
    ensures
        v.opened(k).one_of_each(),
        v.opened(k).placed(k) == 1,
        v.opened(k).opened(k) == v.opened(k),
{
    lemma_opened(v, k);
    lemma_place_found(v, k);
    lemma_place_found(v.opened(k), k);
    lemma_column_tally_bounds(v.left, k);
    lemma_column_tally_bounds(v.right, k);
    lemma_float_tally_bounds(v.floating, k);
    assert(v.tally(k) <= 1);
    assert forall|j: PanelKind| #[trigger] v.opened(k).tally(j) <= 1 by {
        assert(v.tally(j) <= 1);
    }
    assert(v.opened(k).tally(k) <= 1);
}

/// A module that was closed is nowhere, and its column does not outlive it.
pub proof fn closing_removes_the_module_and_its_column(v: LayoutView, k: PanelKind)
    requires
        v.sound(),
        v.one_of_each(),
    ensures
        v.closed(k).place_of(k) is None,
        forall|side: Side, i: int|
            0 <= i < v.closed(k).columns(side).len() ==> (#[trigger] v.closed(k).columns(
                side,
            )[i]).panels.len() > 0,
{
    lemma_closed(v, k);
    lemma_stack_small(v);
    lemma_without(v, k);
    let w = v.closed(k);
    lemma_place_found(v, k);
    lemma_place_found(w, k);
    assert(v.tally(k) <= 1);
    assert(w.tally(k) == v.tally(k) - one_if(v.place_of(k) is Some));
    lemma_pruned(v.without(k).left);
    lemma_pruned(v.without(k).right);
    lemma_column_tally_bounds(w.left, k);
    lemma_column_tally_bounds(w.right, k);
    lemma_float_tally_bounds(w.floating, k);
    assert(w.placed(k) <= 0) by {
        lemma_column_tally_bounds(v.left, k);
        lemma_column_tally_bounds(v.right, k);
        lemma_float_tally_bounds(v.floating, k);
    }
    assert forall|side: Side, i: int| 0 <= i < w.columns(side).len() implies (
    #[trigger] w.columns(side)[i]).panels.len() > 0 by {}
}

// --- dragging ---------------------------------------------------------------

/// Outside edit mode panels are locked.
pub proof fn panels_are_locked_outside_edit_mode(
    v: LayoutView,
    k: PanelKind,
    pointer: Pos2,
    rect: Rect,
)
    requires
        !v.edit_mode,
    ensures
        v.lifted(k, pointer, rect) == v,
{
}

/// A drag takes the panel out of the layout and moves no column: the one it
/// emptied stands until the drop.
pub proof fn a_drag_keeps_every_column(v: LayoutView, k: PanelKind, pointer: Pos2, rect: Rect)
    requires
        v.sound(),
        v.one_of_each(),
        v.edit_mode,
        v.drag is None,
        v.place_of(k) is Some,
        pointer.in_reach(),
        rect.in_reach(),
    ensures
        v.lifted(k, pointer, rect).drag is Some,
        v.lifted(k, pointer, rect).place_of(k) is None,
        v.lifted(k, pointer, rect).left.len() == v.left.len(),
        v.lifted(k, pointer, rect).right.len() == v.right.len(),
        forall|side: Side, i: int|
            0 <= i < v.columns(side).len() ==> (#[trigger] v.lifted(k, pointer, rect).columns(
                side,
            )[i]).width == v.columns(side)[i].width,
{
    let w = v.lifted(k, pointer, rect);
    lemma_lifted(v, k, pointer, rect);
    lemma_stack_small(v);
    lemma_without(v, k);
    lemma_place_found(w, k);
    assert(w.tally(k) == v.tally(k));
    assert(v.tally(k) <= 1);
    lemma_column_index(v.left, k, 0);
    lemma_column_index(v.right, k, 0);
    assert forall|side: Side, i: int| 0 <= i < v.columns(side).len() implies (
    #[trigger] w.columns(side)[i]).width == v.columns(side)[i].width by {}
}

/// Whatever a drag is dropped on, no blank column is left.
pub proof fn a_drop_leaves_no_blank_column(v: LayoutView, target: DropTarget)
    requires
        v.sound(),
        v.drag is Some,
    ensures
        v.dropped(target).drag is None,
        forall|side: Side, i: int|
            0 <= i < v.dropped(target).columns(side).len() ==> (#[trigger] v.dropped(
                target,
            ).columns(side)[i]).panels.len() > 0,
{
    lemma_dropped(v, target);
}

/// The dropped module is in the layout again, and only it has been added.
pub proof fn a_drop_places_what_was_in_hand(v: LayoutView, target: DropTarget, j: PanelKind)
    requires
        v.sound(),
        v.drag is Some,
    ensures
        v.dropped(target).placed(j) == v.placed(j) + one_if(v.drag->0.kind == j),
        v.dropped(target).place_of(v.drag->0.kind) is Some,
{
    lemma_dropped(v, target);
    let w = v.dropped(target);
    let k = v.drag->0.kind;
    assert(w.tally(j) == v.tally(j));
    assert(w.tally(k) == v.tally(k));
    lemma_place_found(w, k);
    lemma_column_tally_bounds(v.left, k);
    lemma_column_tally_bounds(v.right, k);
    lemma_float_tally_bounds(v.floating, k);
}

/// Abandoning a drag of a docked panel, wherever the pointer went meanwhile,
/// gives back the layout the drag began with, changed only in that it is due to
/// be written.
pub proof fn cancelling_a_drag_restores_the_layout(
    v: LayoutView,
    k: PanelKind,
    start: Pos2,
    rect: Rect,
    end: Pos2,
)
    requires
        v.sound(),
        v.drag is None,
        v.edit_mode,
        v.place_of(k) is Some,
        v.place_of(k)->0 is Dock,
    ensures
        v.lifted(k, start, rect).dragged_to(end).cancelled() == v.marked(),
{
    lemma_stack_small(v);
    lemma_column_index(v.left, k, 0);
    lemma_column_index(v.right, k, 0);
    let lifted = v.lifted(k, start, rect);
    let w = lifted.dragged_to(end);
    let drag = w.drag->0;
    match drag.origin {
        Origin::Dock { side, column, index, weight, width } => {
            let columns = v.columns(side);
            let c = column_index(columns, k, 0);
            let p = columns[c].panels;
            let i = panel_index(p, k, 0);
            assert(column == c && index == i);
            let removed = with_panels(columns, c, p.remove(i));
            assert(w.columns(side) == removed);
            let q = removed[c].panels;
            let docked = Docked { kind: k, weight };
            assert(docked == p[i]);
            assert(q.insert(i, docked) =~= p);
            assert(columns[c].sound());
            assert(removed.update(c, removed[c].stacked(i, docked)) =~= columns);
            let put = LayoutView { drag: None, ..w }.with_put(k, drag.origin);
            assert(put.left =~= v.left);
            assert(put.right =~= v.right);
            lemma_pruned(v.left);
            lemma_pruned(v.right);
            assert(w.cancelled() =~= v.marked());
        },
        _ => {},
    }
}

/// Abandoning a drag of a floating panel leaves every column as it was and the
/// panel where it was, in front of the other floats.
pub proof fn cancelling_a_float_drag_puts_it_in_front(
    v: LayoutView,
    k: PanelKind,
    start: Pos2,
    rect: Rect,
    end: Pos2,
)
    requires
        v.sound(),
        v.drag is None,
        v.edit_mode,
        v.place_of(k) is Some,
        v.place_of(k)->0 is Float,
    ensures
        ({
            let w = v.lifted(k, start, rect).dragged_to(end).cancelled();
            let f = float_index(v.floating, k, 0);
            &&& w.left == v.left
            &&& w.right == v.right
            &&& w.floating == v.floating.remove(f).push(v.floating[f])
            &&& w.drag is None
        }),
{
    lemma_float_index(v.floating, k, 0);
    lemma_pruned(v.left);
    lemma_pruned(v.right);
    let w = v.lifted(k, start, rect).dragged_to(end);
    let f = float_index(v.floating, k, 0);
    let put = LayoutView { drag: None, ..w }.with_put(k, w.drag->0.origin);
    assert(put.left == v.left && put.right == v.right);
    assert(v.floating[f] == Floating { kind: k, rect: v.floating[f].rect });
}

/// Abandoning an add leaves no trace of it but the mode it was made in.
pub proof fn cancelling_an_add_undoes_it(v: LayoutView, k: PanelKind, start: Pos2, end: Pos2)
    requires
        v.sound(),
        v.drag is None,
        v.place_of(k) is None,
    ensures
        v.picked_up(k, start).dragged_to(end).cancelled() == (LayoutView {
            edit_mode: true,
            ..v.marked()
        }),
{
    lemma_pruned(v.left);
    lemma_pruned(v.right);
    assert(v.picked_up(k, start).dragged_to(end).cancelled() =~= LayoutView {
        edit_mode: true,
        ..v.marked()
    });
}

/// Leaving edit mode ends a drag in progress, and gives back what abandoning it
/// would have.
pub proof fn leaving_edit_mode_abandons_a_drag(v: LayoutView)
    requires
        v.edit_mode,
    ensures
        v.in_mode(false).drag is None,
        !v.in_mode(false).edit_mode,
        v.in_mode(false).left == v.cancelled().left,
        v.in_mode(false).right == v.cancelled().right,
        v.in_mode(false).floating == v.cancelled().floating,
{
    if v.drag is Some {
        let drag = v.drag->0;
        let a = LayoutView { drag: None, ..v }.with_put(drag.kind, drag.origin);
        let b = LayoutView { drag: None, edit_mode: false, ..v }.with_put(drag.kind, drag.origin);
        assert(a.left == b.left && a.right == b.right && a.floating == b.floating);
    }
}

/// A module that has just been picked up by a click is put down neither in the
/// frame of that click nor, after any number of frames without an idle one, by
/// a button that is still down; it is put down by the first press after an idle
/// frame.
pub proof fn a_picked_up_module_waits_for_a_press(
    v: LayoutView,
    k: PanelKind,
    pointer: Pos2,
    down: bool,
    pressed: bool,
    again: bool,
)
    requires
        v.drag is None,
    ensures
        ({
            let w = v.picked_up(k, pointer);
            &&& !w.after_frame(down, pressed).drops(down, pressed)
            &&& (down || pressed) ==> w.after_frame(down, pressed) == w
            &&& w.after_frame(false, false).after_frame(again, true).drops(again, true)
        }),
{
}

/// An ordinary drag ends exactly when no button is down.
pub proof fn an_ordinary_drag_ends_on_release(
    v: LayoutView,
    k: PanelKind,
    pointer: Pos2,
    rect: Rect,
    down: bool,
    pressed: bool,
)
    requires
        v.drag is None,
        v.edit_mode,
        v.place_of(k) is Some,
    ensures
        v.lifted(k, pointer, rect).after_frame(down, pressed).drops(down, pressed) == !down,
{
}

/// No column is narrower than any module in it accepts, so a picker is never
/// three buttons across.
pub proof fn no_column_squeezes_a_module(v: LayoutView, side: Side, c: int, i: int)
    requires
        v.sound(),
        0 <= c < v.columns(side).len(),
        0 <= i < v.columns(side)[c].panels.len(),
    ensures
        v.columns(side)[c].panels[i].kind.least_width() <= v.columns(side)[c].width,
{
    let column = v.columns(side)[c];
    assert(column.sound());
    let _ = lemma_widest_found(column.panels, column.panels.len() as int);
    assert(column.panels[i].kind.least_width() <= column.least_width());
}

proof fn lemma_place_is_wide_enough(v: LayoutView, k: PanelKind)
    requires
        v.sound(),
        v.place_of(k) is Some,
        v.place_of(k)->0 is Dock,
    ensures
        k.least_width() <= v.place_of(k)->0->width <= limits::SIDEBAR_MAX_WIDTH,
{
    lemma_stack_small(v);
    lemma_column_index(v.left, k, 0);
    lemma_column_index(v.right, k, 0);
    let side = v.place_of(k)->0->side;
    let columns = v.columns(side);
    let c = column_index(columns, k, 0);
    assert(columns[c].sound());
    no_column_squeezes_a_module(v, side, c, panel_index(columns[c].panels, k, 0));
}

/// A docked panel dropped as a column of its own keeps the width of the column
/// it came from, and the weight it had.
pub proof fn a_column_moved_keeps_its_width(
    v: LayoutView,
    k: PanelKind,
    pointer: Pos2,
    rect: Rect,
    side: Side,
    at: usize,
)
    requires
        v.sound(),
        v.drag is None,
        v.edit_mode,
        v.place_of(k) is Some,
        v.place_of(k)->0 is Dock,
        at <= v.columns(side).len(),
    ensures
        ({
            let w = v.lifted(k, pointer, rect);
            let landed = w.landed(w.drag->0, DropTarget::NewColumn { side, column: at });
            landed.columns(side)[at as int] == (ColumnView {
                panels: seq![Docked { kind: k, weight: v.place_of(k)->0->weight }],
                width: v.place_of(k)->0->width,
            })
        }),
{
    lemma_stack_small(v);
    lemma_without(v, k);
    let w = v.lifted(k, pointer, rect);
    assert(w.columns(side).len() == v.columns(side).len());
    lemma_place_is_wide_enough(v, k);
}

// --- who owns the pointer ---------------------------------------------------

/// The canvas is paused everywhere in edit mode and during a drag.
pub proof fn editing_and_dragging_pause_the_canvas(v: LayoutView, pointer: Pos2)
    ensures
        v.edit_mode ==> v.blocks(pointer),
        v.drag is Some ==> v.blocks(pointer),
        !v.edit_mode && v.drag is None && v.floating.len() == 0 ==> !v.blocks(pointer),
{
}

// --- splitters --------------------------------------------------------------

/// Moving a boundary keeps what the two panels have together, touches no other
/// panel, and squeezes neither of the two below the minimum if both had it.
pub proof fn a_splitter_cannot_destroy_a_panel(heights: Seq<i128>, index: int, delta: int)
    requires
        0 <= index < heights.len() - 1,
        forall|i: int|
            0 <= i < heights.len() ==> fine(limits::PANEL_MIN_HEIGHT as int)
                <= #[trigger] heights[i] <= fine(4 * REACH),
    ensures
        ({
            let next = split_heights(heights, index, delta);
            &&& next.len() == heights.len()
            &&& next[index] + next[index + 1] == heights[index] + heights[index + 1]
            &&& forall|i: int|
                0 <= i < next.len() ==> #[trigger] next[i] >= fine(
                    limits::PANEL_MIN_HEIGHT as int,
                )
            &&& forall|i: int|
                0 <= i < next.len() && i != index && i != index + 1 ==> #[trigger] next[i]
                    == heights[i]
        }),
{
    let least = fine(limits::PANEL_MIN_HEIGHT as int);
    assert(least <= heights[index] <= fine(4 * REACH));
    assert(least <= heights[index + 1] <= fine(4 * REACH));
    let next = split_heights(heights, index, delta);
    assert forall|i: int| 0 <= i < next.len() implies #[trigger] next[i] >= least by {
        assert(heights[i] >= least);
    }
}

proof fn lemma_split_sum(heights: Seq<i128>, index: int, delta: int, n: int)
    requires
        0 <= index < heights.len() - 1,
        0 <= n <= heights.len(),
        forall|i: int|
            0 <= i < heights.len() ==> fine(limits::PANEL_MIN_HEIGHT as int)
                <= #[trigger] heights[i] <= fine(4 * REACH),
    ensures
        height_sum(split_heights(heights, index, delta), n) == height_sum(heights, n) + if n
            == index + 1 {
            split_delta(heights, index, delta)
        } else {
            0
        },
    decreases n,
{
    let least = fine(limits::PANEL_MIN_HEIGHT as int);
    assert(least <= heights[index] <= fine(4 * REACH));
    assert(least <= heights[index + 1] <= fine(4 * REACH));
    if n > 0 {
        lemma_split_sum(heights, index, delta, n - 1);
    }
}

/// The heights a splitter is dragged to are the heights the column then has.
///
/// Take the heights a column was laid out with, move a boundary, and lay the
/// same room out again: every panel is as tall as the drag left it, to within a
/// hundredth of a point, and none is below the minimum, so the stack does not
/// creep. What the column holds, in which order, and its width are what they
/// were.
pub proof fn dragging_a_splitter_round_trips(
    v: LayoutView,
    side: Side,
    column: int,
    index: int,
    delta: int,
    heights: Seq<i128>,
    available: int,
)
    requires
        v.sound(),
        0 <= column < v.columns(side).len(),
        0 <= index < heights.len() - 1,
        shared_out(heights, weights_of(v.columns(side)[column].panels), available),
        limits::PANEL_MIN_HEIGHT * heights.len() < available <= 4 * REACH,
    ensures
        ({
            let before = v.columns(side)[column];
            let after = v.split_moved(side, column, index, delta, heights).columns(side)[column];
            let asked = split_heights(heights, index, delta);
            &&& forall|i: int|
                0 <= i < heights.len() ==> -fine(POINT as int) < 100 * (#[trigger] stack_height(
                    weights_of(after.panels),
                    available,
                    i,
                ) - asked[i]) < fine(POINT as int)
            &&& forall|i: int|
                0 <= i < heights.len() ==> #[trigger] stack_height(
                    weights_of(after.panels),
                    available,
                    i,
                ) >= fine(limits::PANEL_MIN_HEIGHT as int)
            &&& after.width == before.width
            &&& after.panels.len() == before.panels.len()
            &&& forall|i: int|
                0 <= i < before.panels.len() ==> (#[trigger] after.panels[i]).kind
                    == before.panels[i].kind
        }),
{
    lemma_stack_small(v);
    let panels = v.columns(side)[column].panels;
    let n = heights.len() as int;
    let weights = weights_of(panels);
    let least = fine(limits::PANEL_MIN_HEIGHT as int);
    assert forall|i: int| 0 <= i < heights.len() implies least <= #[trigger] heights[i] <= fine(
        4 * REACH,
    ) by {
        heights_honour_the_minimum(weights, available, i);
        crate::dock::heights::lemma_top_in_room(weights, available, i);
        crate::dock::heights::lemma_top_in_room(weights, available, i + 1);
        assert(heights[i] == stack_height(weights, available, i));
    }
    let next = split_heights(heights, index, delta);
    a_splitter_cannot_destroy_a_panel(heights, index, delta);
    lemma_split_sum(heights, index, delta, n);
    crate::dock::heights::heights_fill_the_room(heights, weights, available);
    let sum = height_sum(next, n);
    assert(fine(available) - n < sum <= fine(available));
    let after = v.split_moved(side, column, index, delta, heights).columns(side)[column];
    assert(after.panels == weighted(panels, spare_weights(next)));
    let fresh = weights_of(after.panels);
    let flexible = spare(next);
    assert forall|i: int| 0 <= i < n implies #[trigger] flexible[i] == weight_of_height(
        next[i] as int,
    ) by {
        assert(least <= heights[index] <= fine(4 * REACH));
        assert(least <= heights[index + 1] <= fine(4 * REACH));
        assert(least <= heights[i] <= fine(4 * REACH));
        assert(next[i] >= least);
    }
    assert forall|i: int| 0 <= i < n implies #[trigger] stack_height(fresh, available, i)
        >= least by {
        heights_honour_the_minimum(fresh, available, i);
    }
    if weight_sum(flexible, n) > 1 {
        assert(fresh =~= flexible);
        assert forall|i: int| 0 <= i < n implies -fine(POINT as int) < 100 * (
        #[trigger] stack_height(fresh, available, i) - next[i]) < fine(POINT as int) by {
            heights_written_back_are_kept(next, fresh, available, i);
        }
    } else {
        lemma_written_back(next, flexible, n);
        assert forall|i: int| 0 <= i < n implies #[trigger] fresh[i] == limits::WEIGHT_ONE by {}
        let beyond = fine(available) - fine(limits::PANEL_MIN_HEIGHT * n);
        assert(beyond < 10_000_000_000_000_001 * (n + 1));
        assert forall|i: int| 0 <= i < n implies -fine(POINT as int) < 100 * (
        #[trigger] stack_height(fresh, available, i) - next[i]) < fine(POINT as int) by {
            lemma_least_besides(next, i, n);
            lemma_ones_sum(fresh, n);
            assert(!equal_shares(fresh, available));
            let extra = beyond_minimums(fresh, available);
            let one = limits::WEIGHT_ONE as int;
            let x = fine(extra * one);
            assert(x == beyond * one) by (nonlinear_arith)
                requires
                    x == (extra * one) * 1_000_000_000_000_000_000,
                    beyond == extra * 1_000_000_000_000_000_000,
            ;
            assert(0 <= beyond * one / (one * n) <= beyond) by (nonlinear_arith)
                requires
                    beyond >= 0,
                    one > 0,
                    n >= 1,
            ;
            assert(fresh[i] == limits::WEIGHT_ONE);
            assert(weight_sum(fresh, n) == one * n);
            assert(stack_height(fresh, available, i) == least + x / (one * n));
        }
    }
}

/// Weights of one each.
proof fn lemma_ones_sum(weights: Seq<i64>, n: int)
    requires
        0 <= n <= weights.len(),
        forall|i: int| 0 <= i < weights.len() ==> #[trigger] weights[i] == limits::WEIGHT_ONE,
    ensures
        weight_sum(weights, n) == limits::WEIGHT_ONE * n,
    decreases n,
{
    if n > 0 {
        lemma_ones_sum(weights, n - 1);
        assert(weights[n - 1] == limits::WEIGHT_ONE);
    }
}

/// Panels that all have their minimum are together at least that tall.
proof fn lemma_least_sum(heights: Seq<i128>, n: int)
    requires
        0 <= n <= heights.len(),
        forall|i: int|
            0 <= i < heights.len() ==> #[trigger] heights[i] >= fine(
                limits::PANEL_MIN_HEIGHT as int,
            ),
    ensures
        height_sum(heights, n) >= fine(limits::PANEL_MIN_HEIGHT * n),
    decreases n,
{
    if n > 0 {
        lemma_least_sum(heights, n - 1);
        assert(heights[n - 1] >= fine(limits::PANEL_MIN_HEIGHT as int));
    }
}

/// What one panel has, the others having at least their minimums.
proof fn lemma_least_besides(heights: Seq<i128>, i: int, n: int)
    requires
        0 <= i < n <= heights.len(),
        forall|j: int|
            0 <= j < heights.len() ==> #[trigger] heights[j] >= fine(
                limits::PANEL_MIN_HEIGHT as int,
            ),
    ensures
        height_sum(heights, n) >= fine(limits::PANEL_MIN_HEIGHT * (n - 1)) + heights[i],
    decreases n,
{
    if i == n - 1 {
        lemma_least_sum(heights, n - 1);
    } else {
        lemma_least_besides(heights, i, n - 1);
        assert(heights[n - 1] >= fine(limits::PANEL_MIN_HEIGHT as int));
    }
}

/// A splitter moves its own column and no other, and neither width nor place of
/// anything.
pub proof fn a_splitter_only_moves_its_own_column(
    v: LayoutView,
    side: Side,
    column: int,
    index: int,
    delta: int,
    heights: Seq<i128>,
)
    ensures
        ({
            let w = v.split_moved(side, column, index, delta, heights);
            &&& w.columns(side.opposite()) == v.columns(side.opposite())
            &&& w.columns(side).len() == v.columns(side).len()
            &&& forall|c: int|
                0 <= c < v.columns(side).len() && c != column ==> #[trigger] w.columns(side)[c]
                    == v.columns(side)[c]
            &&& w.floating == v.floating
            &&& w.drag == v.drag
        }),
{
}

// --- widths -----------------------------------------------------------------

/// However far a column is dragged, its width stays between what the widest of
/// its modules needs and the maximum, in whole points.
pub proof fn a_column_width_is_clamped(v: LayoutView, side: Side, column: int, width: int)
    requires
        v.sound(),
        0 <= column < v.columns(side).len(),
    ensures
        ({
            let c = v.columns(side)[column];
            let w = v.widened(side, column, width).columns(side)[column];
            &&& c.least_width() <= w.width <= limits::SIDEBAR_MAX_WIDTH
            &&& w.width as int % POINT as int == 0
            &&& w.panels == c.panels
            &&& c.least_width() <= width <= limits::SIDEBAR_MAX_WIDTH && width % POINT as int == 0
                ==> w.width == width
        }),
{
    let c = v.columns(side)[column];
    assert(c.sound());
    if c.panels.len() > 0 {
        crate::dock::model::lemma_widest_minimum(c.panels, c.panels.len() as int);
    }
}

// --- floats -----------------------------------------------------------------

/// A stranded float comes back: its header ends up inside the workspace with a
/// strip of the panel showing, and a float that is already in sight stays put.
pub proof fn a_stranded_float_is_pulled_back(rect: Rect, workspace: Rect)
    requires
        rect.bounded(),
        workspace.in_reach(),
        workspace.wide() >= 2 * POINT,
    ensures
        ({
            let r = place_in(rect, workspace);
            &&& r.min.x <= workspace.max.x - limits::FLOAT_KEEP_VISIBLE
            &&& r.max.x >= workspace.min.x + limits::FLOAT_KEEP_VISIBLE
            &&& workspace.min.y <= r.min.y
            &&& workspace.tall() >= metrics::PANEL_HEADER ==> r.min.y <= workspace.max.y
                - metrics::PANEL_HEADER
            &&& limits::FLOAT_MIN_WIDTH <= r.wide() <= limits::FLOAT_MAX_WIDTH
            &&& limits::FLOAT_MIN_HEIGHT <= r.tall() <= limits::FLOAT_MAX_HEIGHT
            &&& place_in(r, workspace) == r
        }),
{
}

// --- geometry ---------------------------------------------------------------

/// Columns on a side stand next to each other from the window edge inwards, at
/// the full height of the workspace, and the canvas is what is left between the
/// two sides.
pub proof fn columns_tile_inwards_from_the_edge(v: LayoutView, workspace: Rect)
    requires
        workspace.in_reach(),
    ensures
        ({
            let p = v.laid_out(workspace);
            &&& p.left.len() == v.left.len()
            &&& p.right.len() == v.right.len()
            &&& p.left.len() > 0 ==> p.left[0].rect.min.x == p.workspace.min.x
            &&& p.right.len() > 0 ==> p.right[0].rect.max.x == p.workspace.max.x
            &&& forall|i: int|
                0 < i < p.left.len() ==> (#[trigger] p.left[i]).rect.min.x == p.left[i
                    - 1].rect.max.x
            &&& forall|i: int|
                0 < i < p.right.len() ==> (#[trigger] p.right[i]).rect.max.x == p.right[i
                    - 1].rect.min.x
            &&& p.canvas.min.x == if p.left.len() > 0 {
                p.left.last().rect.max.x
            } else {
                p.workspace.min.x
            }
            &&& p.canvas.max.x == if p.right.len() > 0 {
                p.right.last().rect.min.x
            } else {
                p.workspace.max.x
            }
            &&& p.canvas.min.y == p.workspace.min.y && p.canvas.max.y == p.workspace.max.y
            &&& forall|side: Side, i: int|
                0 <= i < p.columns(side).len() ==> {
                    &&& (#[trigger] p.columns(side)[i]).rect.min.y == p.workspace.min.y
                    &&& p.columns(side)[i].rect.max.y == p.workspace.max.y
                }
        }),
{
    let whole = upright_of(workspace);
    let middle = canvas_after(Side::Left, v.left, whole, v.left.len() as int);
    let p = v.laid_out(workspace);
    lemma_canvas_after(Side::Left, v.left, whole, v.left.len() as int);
    lemma_tiles(Side::Left, v.left, whole);
    lemma_canvas_after(Side::Right, v.right, middle, v.right.len() as int);
    lemma_tiles(Side::Right, v.right, middle);
    assert forall|side: Side, i: int| 0 <= i < p.columns(side).len() implies {
        &&& (#[trigger] p.columns(side)[i]).rect.min.y == p.workspace.min.y
        &&& p.columns(side)[i].rect.max.y == p.workspace.max.y
    } by {
        match side {
            Side::Left => {
                assert(p.left[i] == plans_of(side, v.left, whole)[i]);
            },
            Side::Right => {
                assert(p.right[i] == plans_of(side, v.right, middle)[i]);
            },
        }
    }
}

proof fn lemma_tiles(side: Side, columns: Seq<ColumnView>, canvas: Rect)
    requires
        canvas.upright(),
        canvas.in_reach(),
    ensures
        ({
            let p = plans_of(side, columns, canvas);
            let rest = canvas_after(side, columns, canvas, columns.len() as int);
            &&& p.len() > 0 ==> outer_edge(side, p[0].rect) == outer_edge(side, canvas)
            &&& forall|i: int|
                0 < i < p.len() ==> outer_edge(side, (#[trigger] p[i]).rect) == inner_edge(
                    side,
                    p[i - 1].rect,
                )
            &&& p.len() > 0 ==> outer_edge(side, rest) == inner_edge(side, p.last().rect)
            &&& forall|i: int|
                0 <= i < p.len() ==> {
                    &&& (#[trigger] p[i]).rect.min.y == canvas.min.y
                    &&& p[i].rect.max.y == canvas.max.y
                    &&& p[i].rect.upright()
                    &&& canvas.min.x <= p[i].rect.min.x
                    &&& p[i].rect.max.x <= canvas.max.x
                }
        }),
{
    let p = plans_of(side, columns, canvas);
    assert forall|i: int| 0 < i < p.len() implies outer_edge(side, (#[trigger] p[i]).rect)
        == inner_edge(side, p[i - 1].rect) by {
        lemma_canvas_after(side, columns, canvas, i - 1);
        lemma_column_share(columns[i - 1], canvas_after(side, columns, canvas, i - 1));
        lemma_canvas_after(side, columns, canvas, i);
        lemma_column_share(columns[i], canvas_after(side, columns, canvas, i));
    }
    assert forall|i: int| 0 <= i < p.len() implies {
        &&& (#[trigger] p[i]).rect.min.y == canvas.min.y
        &&& p[i].rect.max.y == canvas.max.y
        &&& p[i].rect.upright()
        &&& canvas.min.x <= p[i].rect.min.x
        &&& p[i].rect.max.x <= canvas.max.x
    } by {
        lemma_canvas_after(side, columns, canvas, i);
        lemma_column_share(columns[i], canvas_after(side, columns, canvas, i));
    }
    if p.len() > 0 {
        let n = p.len() - 1;
        lemma_canvas_after(side, columns, canvas, n);
        lemma_column_share(columns[n], canvas_after(side, columns, canvas, n));
        lemma_column_share(columns[0], canvas);
    }
}

/// However small the window is, no rectangle of the layout is turned inside
/// out: not the workspace, the canvas, a column, a slot, a drop zone or a
/// new-column hint.
pub proof fn every_rectangle_is_upright(v: LayoutView, workspace: Rect, side: Side, column: int)
    requires
        workspace.in_reach(),
    ensures
        ({
            let p = v.laid_out(workspace);
            &&& p.workspace.upright()
            &&& p.canvas.upright()
            &&& p.sidebar_of(side) is Some ==> p.sidebar_of(side)->0.upright()
            &&& p.zone_of(side).upright()
            &&& p.column_strip_of(side, column).upright()
            &&& forall|i: int|
                0 <= i < p.columns(side).len() ==> (#[trigger] p.columns(side)[i]).rect.upright()
            &&& forall|i: int, j: int|
                0 <= i < p.columns(side).len() && 0 <= j < p.columns(side)[i].slots.len()
                    ==> (#[trigger] p.columns(side)[i].slots[j]).upright()
        }),
{
    let p = v.laid_out(workspace);
    let whole = upright_of(workspace);
    let middle = canvas_after(Side::Left, v.left, whole, v.left.len() as int);
    crate::dock::geometry::lemma_plan_in_reach(v, workspace);
    lemma_canvas_after(Side::Left, v.left, whole, v.left.len() as int);
    lemma_tiles(Side::Left, v.left, whole);
    lemma_canvas_after(Side::Right, v.right, middle, v.right.len() as int);
    lemma_tiles(Side::Right, v.right, middle);
    let columns = v.columns(side);
    let canvas = match side {
        Side::Left => whole,
        Side::Right => middle,
    };
    let plans = plans_of(side, columns, canvas);
    assert(p.columns(side) == plans);
    assert forall|i: int, j: int|
        0 <= i < plans.len() && 0 <= j < plans[i].slots.len() implies (
    #[trigger] plans[i].slots[j]).upright() by {
        let weights = weights_of(columns[i].panels);
        let tall = plans[i].rect.tall();
        assert(plans[i].rect.in_reach());
        heights_honour_the_minimum(weights, tall, j);
        crate::dock::heights::lemma_top_in_room(weights, tall, j);
        crate::dock::heights::lemma_top_in_room(weights, tall, j + 1);
        assert(stack_height(weights, tall, j) >= 0);
    }
    if plans.len() > 0 {
        assert(plans[0].rect.upright());
        assert(plans[plans.len() - 1].rect.upright());
    }
    lemma_hints_upright(p, side, column);
}

proof fn lemma_hints_upright(p: Plan, side: Side, column: int)
    requires
        p.in_reach(),
        p.workspace.upright(),
        p.canvas.upright(),
        p.columns(side).len() > 0 ==> p.columns(side).first().rect.upright()
            && p.columns(side).last().rect.upright(),
    ensures
        p.sidebar_of(side) is Some ==> p.sidebar_of(side)->0.upright(),
        p.zone_of(side).upright(),
        p.column_strip_of(side, column).upright(),
{
    let columns = p.columns(side);
    let edge = p.boundary_of(side, column);
    if 0 <= column < columns.len() {
        assert(columns[column].rect.in_reach());
    } else if columns.len() > 0 {
        assert(columns[columns.len() - 1].rect.in_reach());
    }
}

/// The slots of a column stand on top of each other and fill it, from the top to
/// the bottom.
pub proof fn slots_fill_their_column(
    v: LayoutView,
    workspace: Rect,
    side: Side,
    c: int,
)
    requires
        v.sound(),
        workspace.in_reach(),
        0 <= c < v.columns(side).len(),
        v.columns(side)[c].panels.len() > 0,
    ensures
        ({
            let p = v.laid_out(workspace).columns(side)[c];
            &&& p.slots.len() == v.columns(side)[c].panels.len()
            &&& p.slots[0].min.y == p.rect.min.y
            &&& p.slots.last().max.y == p.rect.max.y
            &&& forall|i: int|
                0 < i < p.slots.len() ==> (#[trigger] p.slots[i]).min.y == p.slots[i - 1].max.y
            &&& forall|i: int|
                0 <= i < p.slots.len() ==> (#[trigger] p.slots[i]).min.x == p.rect.min.x
                    && p.slots[i].max.x == p.rect.max.x
        }),
{
    every_rectangle_is_upright(v, workspace, side, c);
    crate::dock::geometry::lemma_plan_in_reach(v, workspace);
    let p = v.laid_out(workspace).columns(side)[c];
    assert(p.rect.upright());
    assert(p.rect.in_reach());
    let weights = weights_of(v.columns(side)[c].panels);
    lemma_stack_small(v);
    lemma_stack_ends(weights, p.rect.tall());
    assert(p.slots[0].min.y == p.rect.min.y);
    let n = weights.len() as int;
    crate::dock::heights::lemma_top_in_room(weights, p.rect.tall(), n);
    assert(settled(stack_top(weights, p.rect.tall(), n)) == p.rect.tall());
    assert(p.slots[n - 1].max.y == p.rect.min.y + p.rect.tall());
}

/// Floating panels hover: what is laid out, the canvas included, depends on
/// nothing but the columns.
pub proof fn floats_do_not_shrink_the_canvas(v: LayoutView, w: LayoutView, workspace: Rect)
    requires
        v.left == w.left,
        v.right == w.right,
    ensures
        v.laid_out(workspace) == w.laid_out(workspace),
{
}

/// The document keeps its share, however many columns are docked: the least
/// canvas, or all of a workspace that has no more than that. A workspace of whole
/// points leaves the whole of it; another one leaves it to within the rounding of
/// one point.
pub proof fn the_canvas_keeps_its_share(v: LayoutView, workspace: Rect)
    requires
        workspace.in_reach(),
    ensures
        ({
            let wide = upright_of(workspace).wide();
            let canvas = v.laid_out(workspace).canvas.wide();
            &&& canvas > min_of(wide, limits::CANVAS_MIN_WIDTH as int) - POINT
            &&& wide % POINT as int == 0 ==> canvas >= min_of(wide, limits::CANVAS_MIN_WIDTH as int)
            &&& wide <= limits::CANVAS_MIN_WIDTH ==> canvas == wide
        }),
{
    let whole = upright_of(workspace);
    let middle = canvas_after(Side::Left, v.left, whole, v.left.len() as int);
    lemma_share_left(Side::Left, v.left, whole, v.left.len() as int, whole.wide());
    lemma_canvas_after(Side::Left, v.left, whole, v.left.len() as int);
    lemma_share_left(Side::Right, v.right, middle, v.right.len() as int, whole.wide());
}

/// Whether a canvas still has its share of a workspace this wide.
spec fn has_share(canvas: Rect, wide: int) -> bool {
    &&& canvas.wide() > min_of(wide, limits::CANVAS_MIN_WIDTH as int) - POINT
    &&& wide % POINT as int == 0 ==> canvas.wide() % POINT as int == 0 && canvas.wide() >= min_of(
        wide,
        limits::CANVAS_MIN_WIDTH as int,
    )
    &&& wide <= limits::CANVAS_MIN_WIDTH ==> canvas.wide() == wide
}

/// A column takes whole points, nothing where the least canvas is all there is,
/// and never any of that.
proof fn lemma_whole_share(column: ColumnView, canvas: Rect)
    requires
        canvas.upright(),
        canvas.in_reach(),
    ensures
        column_share(column, canvas) % POINT as int == 0,
        canvas.wide() <= limits::CANVAS_MIN_WIDTH ==> column_share(column, canvas) == 0,
        canvas.wide() >= limits::CANVAS_MIN_WIDTH && canvas.wide() % POINT as int == 0
            ==> canvas.wide() - column_share(column, canvas) >= limits::CANVAS_MIN_WIDTH,
{
}

proof fn lemma_share_left(side: Side, columns: Seq<ColumnView>, canvas: Rect, n: int, wide: int)
    requires
        canvas.upright(),
        canvas.in_reach(),
        has_share(canvas, wide),
        n >= 0,
    ensures
        has_share(canvas_after(side, columns, canvas, n), wide),
    decreases n,
{
    if n > 0 {
        lemma_share_left(side, columns, canvas, n - 1, wide);
        lemma_canvas_after(side, columns, canvas, n - 1);
        let before = canvas_after(side, columns, canvas, n - 1);
        lemma_column_share(columns[n - 1], before);
        lemma_whole_share(columns[n - 1], before);
        let share = column_share(columns[n - 1], before);
        let after = canvas_after(side, columns, canvas, n);
        assert(after.wide() == before.wide() - share);
        lemma_share_kept(before.wide(), share, wide);
    }
}

proof fn lemma_share_kept(before: int, share: int, wide: int)
    requires
        before > min_of(wide, 1_900_000) - 10_000,
        wide % 10_000 == 0 ==> before % 10_000 == 0 && before >= min_of(wide, 1_900_000),
        wide <= 1_900_000 ==> before == wide,
        share % 10_000 == 0,
        before <= 1_900_000 ==> share == 0,
        before >= 1_900_000 ==> before - share > 1_890_000,
        before >= 1_900_000 && before % 10_000 == 0 ==> before - share >= 1_900_000,
    ensures
        before - share > min_of(wide, 1_900_000) - 10_000,
        wide % 10_000 == 0 ==> (before - share) % 10_000 == 0 && before - share >= min_of(
            wide,
            1_900_000,
        ),
        wide <= 1_900_000 ==> before - share == wide,
{
}

/// The bands at the two edges of a column never meet, and the bands of two
/// neighbouring columns name the same boundary: whichever of the two the
/// pointer is over, a release there makes a new column at the same place.
pub proof fn neighbouring_bands_agree(plan: Plan, side: Side, c: int, p: Pos2, q: Pos2)
    requires
        0 <= c < plan.columns(side).len() - 1,
        plan.columns(side).len() <= usize::MAX,
        plan.columns(side)[c].rect.wide() > 0,
        column_under(plan.columns(side), p, 0) == c,
        in_band(
            p.x - inner_edge(side, plan.columns(side)[c].rect),
            plan.columns(side)[c].rect,
        ),
        column_under(plan.columns(side), q, 0) == c + 1,
        in_band(
            q.x - outer_edge(side, plan.columns(side)[c + 1].rect),
            plan.columns(side)[c + 1].rect,
        ),
    ensures
        !in_band(
            p.x - outer_edge(side, plan.columns(side)[c].rect),
            plan.columns(side)[c].rect,
        ),
        plan.side_target(side, p) == Some(
            DropTarget::NewColumn { side, column: (c + 1) as usize },
        ),
        plan.side_target(side, q) == plan.side_target(side, p),
{
}

/// A side with nothing docked can always be filled again: a release in its drop
/// zone makes its first column. The left side is asked first where the two zones
/// meet.
pub proof fn an_empty_side_still_accepts_a_drop(plan: Plan, side: Side, p: Pos2)
    requires
        plan.columns(side).len() == 0,
        plan.zone_of(side).holds(p),
        side == Side::Right ==> plan.side_target(Side::Left, p) is None,
    ensures
        plan.target_of(p) == (DropTarget::NewColumn { side, column: 0 }),
{
}

/// A column can always be stacked into, however narrow: its two bands leave the
/// middle free.
pub proof fn the_middle_of_a_column_stacks_into_it(plan: Plan, side: Side, c: int, p: Pos2)
    requires
        0 <= c < plan.columns(side).len(),
        column_under(plan.columns(side), p, 0) == c,
        10 * (p.x - plan.columns(side)[c].rect.min.x) > 3 * plan.columns(side)[c].rect.wide(),
        10 * (plan.columns(side)[c].rect.max.x - p.x) > 3 * plan.columns(side)[c].rect.wide(),
        plan.columns(side)[c].rect.wide() > 0,
    ensures
        plan.side_target(side, p) matches Some(DropTarget::Dock { side: s, column, .. }) && s
            == side && column == c as usize,
{
}

/// A panel dropped into a column is where the drop was shown: between the same
/// two panels, the column's others in their order. The column is widened to what
/// the panel needs, and keeps its width where that was enough. Only a blank column
/// further out moves it, by going.
pub proof fn a_drop_lands_where_it_was_shown(v: LayoutView, side: Side, column: usize, index: usize)
    requires
        v.drag is Some,
        column < v.columns(side).len(),
        index <= v.columns(side)[column as int].panels.len(),
    ensures
        ({
            let before = v.columns(side)[column as int];
            let after = v.dropped(DropTarget::Dock { side, column, index });
            let at = pruned_columns(v.columns(side).take(column as int)).len() as int;
            &&& at < after.columns(side).len()
            &&& after.columns(side)[at].width == max_of(
                before.width as int,
                after.columns(side)[at].least_width(),
            )
            &&& after.columns(side)[at].panels == before.panels.insert(
                index as int,
                Docked {
                    kind: v.drag->0.kind,
                    weight: LayoutView::drop_weight(v.drag->0) as i64,
                },
            )
            &&& after.columns(side.opposite()) == pruned_columns(v.columns(side.opposite()))
            &&& after.floating == v.floating
        }),
{
    let drag = v.drag->0;
    let columns = v.columns(side);
    let i = column as int;
    let docked = Docked { kind: drag.kind, weight: LayoutView::drop_weight(drag) as i64 };
    let panels = columns[i].panels.insert(index as int, docked);
    let landed = columns.update(i, columns[i].stacked(index as int, docked));
    assert(landed[i].panels == panels);
    lemma_widest_minimum(panels, panels.len() as int);
    lemma_pruned_around(landed, i);
    assert(landed.take(i) =~= columns.take(i));
    let after = v.dropped(DropTarget::Dock { side, column, index });
    assert(after.columns(side) == pruned_columns(landed));
}


} // verus!
