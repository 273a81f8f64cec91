//! What a drag, a drop and every other handling of a layout come to, in terms of
//! where things were and where they end up.

use crate::dock::count::{
    lemma_column_index, lemma_float_index, lemma_place_found, lemma_pruned, lemma_pruned_around,
    lemma_stack_small,
};
use crate::dock::heights::fine;
use crate::dock::keep::{lemma_closed, lemma_lifted, lemma_without};
use crate::dock::kind::{PanelKind, Side};
use crate::dock::model::{
    float_index, no_blank, place_in, pruned_columns, split_heights, ColumnView, Docked, Drag,
    DropTarget, Floating, LayoutView, Origin,
};
use crate::geom::{Pos2, Rect, REACH};
use vstd::prelude::*;

verus! {

// --- tearing off ------------------------------------------------------------

/// A panel torn off and let go as a float keeps the point it was grabbed by under
/// the pointer: it has moved as far as the pointer has, so one lifted and dropped
/// without moving is where it was. Only a panel that had to shrink below the point
/// it was grabbed by gives way, and then the pointer has hold of it 24 points from
/// its right edge, or at its bottom. It is in front of the other floats.
pub proof fn a_panel_torn_off_stays_under_the_pointer(
    v: LayoutView,
    k: PanelKind,
    start: Pos2,
    panel: Rect,
    end: Pos2,
)
    requires
        v.sound(),
        v.drag is None,
        v.edit_mode,
        v.place_of(k) is Some,
        start.in_reach(),
        panel.in_reach(),
        end.in_reach(),
    ensures
        ({
            let after = v.lifted(k, start, panel).dragged_to(end).dropped(DropTarget::Float);
            let r = after.floating.last().rect;
            &&& after.floating.len() > 0
            &&& after.floating.last().kind == k
            &&& after.drag is None
            &&& start.x - panel.min.x <= r.wide() - 240_000 ==> r.min.x - panel.min.x == end.x
                - start.x
            &&& start.x - panel.min.x > r.wide() - 240_000 ==> r.max.x - end.x == 240_000
            &&& start.y - panel.min.y <= r.tall() ==> r.min.y - panel.min.y == end.y - start.y
            &&& start.y - panel.min.y > r.tall() ==> r.max.y == end.y
        }),
{
    lemma_stack_small(v);
    lemma_without(v, k);
    lemma_lifted(v, k, start, panel);
}

/// A docked panel torn off is as big as it was drawn, within what a float may be; a
/// floating one keeps the size it has, whatever it was drawn at.
pub proof fn a_panel_torn_off_keeps_its_size(
    v: LayoutView,
    k: PanelKind,
    start: Pos2,
    panel: Rect,
    end: Pos2,
)
    requires
        v.sound(),
        v.drag is None,
        v.edit_mode,
        v.place_of(k) is Some,
        start.in_reach(),
        panel.in_reach(),
        end.in_reach(),
    ensures
        ({
            let r = v.lifted(k, start, panel).dragged_to(end).dropped(
                DropTarget::Float,
            ).floating.last().rect;
            &&& v.place_of(k)->0 is Dock ==> {
                &&& 1_900_000 <= r.wide() <= 7_200_000
                &&& 1_300_000 <= r.tall() <= 9_000_000
                &&& 1_900_000 <= panel.wide() <= 7_200_000 ==> r.wide() == panel.wide()
                &&& 1_300_000 <= panel.tall() <= 9_000_000 ==> r.tall() == panel.tall()
                &&& panel.wide() < 1_900_000 ==> r.wide() == 1_900_000
                &&& panel.wide() > 7_200_000 ==> r.wide() == 7_200_000
                &&& panel.tall() < 1_300_000 ==> r.tall() == 1_300_000
                &&& panel.tall() > 9_000_000 ==> r.tall() == 9_000_000
            }
            &&& v.place_of(k)->0 matches Origin::Float(was) ==> r.wide() == was.wide() && r.tall()
                == was.tall()
        }),
{
    lemma_stack_small(v);
    lemma_without(v, k);
    lemma_lifted(v, k, start, panel);
}

/// A module picked up hangs by the middle of its header, which is where the pointer
/// is: let go as a float, it reaches as far to the left of the pointer as to the
/// right, and the pointer is half a header below its top. One that was nowhere is as
/// wide as a panel and 260 points tall.
pub proof fn a_module_picked_up_hangs_by_its_header(
    v: LayoutView,
    k: PanelKind,
    start: Pos2,
    end: Pos2,
)
    requires
        v.sound(),
        v.drag is None,
        start.in_reach(),
        end.in_reach(),
    ensures
        ({
            let after = v.picked_up(k, start).dragged_to(end).dropped(DropTarget::Float);
            let r = after.floating.last().rect;
            &&& after.floating.last().kind == k
            &&& -1 <= r.min.x + r.max.x - 2 * end.x <= 1
            &&& end.y - r.min.y == 160_000
            &&& v.place_of(k) is None ==> r.wide() == 2_640_000 && r.tall() == 2_600_000
            &&& v.place_of(k) matches Some(Origin::Float(was)) ==> r.wide() == was.wide()
                && r.tall() == was.tall()
        }),
{
    lemma_stack_small(v);
    lemma_without(v, k);
    lemma_place_found(v, k);
}

/// Moving the pointer moves nothing but where the pointer is.
pub proof fn dragging_moves_only_the_pointer(v: LayoutView, pointer: Pos2)
    ensures
        ({
            let after = v.dragged_to(pointer);
            &&& after.left == v.left
            &&& after.right == v.right
            &&& after.floating == v.floating
            &&& after.edit_mode == v.edit_mode
            &&& after.dirty == v.dirty
            &&& after.drag is Some == v.drag is Some
            &&& v.drag matches Some(drag) ==> {
                &&& after.drag->0.pointer == pointer
                &&& after.drag->0.kind == drag.kind
                &&& after.drag->0.grab == drag.grab
                &&& after.drag->0.float_size == drag.float_size
                &&& after.drag->0.origin == drag.origin
                &&& after.drag->0.sticky == drag.sticky
                &&& after.drag->0.armed == drag.armed
            }
        }),
{
}

/// What is lifted is remembered by where it was, how wide its column was and what
/// it weighed, so that letting it go can put it there again.
pub proof fn a_panel_in_hand_remembers_its_place(
    v: LayoutView,
    k: PanelKind,
    start: Pos2,
    panel: Rect,
)
    requires
        v.sound(),
        v.drag is None,
        v.edit_mode,
        v.place_of(k) is Some,
    ensures
        ({
            let drag = v.lifted(k, start, panel).drag->0;
            &&& drag.kind == k
            &&& drag.pointer == start
            &&& !drag.sticky
            &&& drag.origin matches Origin::Dock { side, column, index, weight, width } ==> {
                &&& column < v.columns(side).len()
                &&& index < v.columns(side)[column as int].panels.len()
                &&& v.columns(side)[column as int].panels[index as int].kind == k
                &&& v.columns(side)[column as int].panels[index as int].weight == weight
                &&& v.columns(side)[column as int].width == width
            }
            &&& drag.origin matches Origin::Float(rect) ==> v.floating.contains(
                Floating { kind: k, rect },
            )
        }),
{
    lemma_stack_small(v);
    lemma_column_index(v.left, k, 0);
    lemma_column_index(v.right, k, 0);
    lemma_float_index(v.floating, k, 0);
    let f = float_index(v.floating, k, 0);
    if f < v.floating.len() {
        assert(v.floating[f] == Floating { kind: k, rect: v.floating[f].rect });
    }
}

// --- letting go -------------------------------------------------------------

/// A float let go leaves every column as it was, but for one the drag had emptied,
/// and every other float where it was.
pub proof fn a_float_let_go_moves_nothing_else(v: LayoutView)
    requires
        v.drag is Some,
    ensures
        ({
            let after = v.dropped(DropTarget::Float);
            &&& after.left == pruned_columns(v.left)
            &&& after.right == pruned_columns(v.right)
            &&& after.floating.drop_last() == v.floating
            &&& after.drag is None
            &&& after.edit_mode == v.edit_mode
            &&& after.dirty
        }),
{
    assert(v.dropped(DropTarget::Float).floating.drop_last() =~= v.floating);
}

/// A panel let go as a column of its own stands between the columns it was shown
/// between, alone, and those keep their order, widths and panels; blank columns go.
pub proof fn a_new_column_stands_where_it_was_shown(v: LayoutView, side: Side, column: usize)
    requires
        v.drag is Some,
        column <= v.columns(side).len(),
    ensures
        ({
            let after = v.dropped(DropTarget::NewColumn { side, column });
            let before = pruned_columns(v.columns(side).take(column as int));
            let behind = pruned_columns(v.columns(side).skip(column as int));
            let at = before.len() as int;
            &&& after.columns(side).len() == before.len() + 1 + behind.len()
            &&& after.columns(side).take(at) == before
            &&& after.columns(side).skip(at + 1) == behind
            &&& after.columns(side)[at].panels.len() == 1
            &&& after.columns(side)[at].panels[0].kind == v.drag->0.kind
            &&& after.columns(side.opposite()) == pruned_columns(v.columns(side.opposite()))
            &&& after.floating == v.floating
        }),
{
    let drag = v.drag->0;
    let columns = v.columns(side);
    let fresh = ColumnView {
        panels: seq![Docked { kind: drag.kind, weight: LayoutView::drop_weight(drag) as i64 }],
        width: LayoutView::drop_width(drag) as i64,
    };
    let all = columns.insert(column as int, fresh);
    lemma_pruned_around(all, column as int);
    assert(all.take(column as int) =~= columns.take(column as int));
    assert(all.skip(column + 1) =~= columns.skip(column as int));
    let after = v.dropped(DropTarget::NewColumn { side, column });
    assert(after.columns(side) == pruned_columns(all));
    let before = pruned_columns(columns.take(column as int));
    let behind = pruned_columns(columns.skip(column as int));
    assert(after.columns(side) == before.push(fresh) + behind);
    assert(after.columns(side).take(before.len() as int) =~= before);
    assert(after.columns(side).skip(before.len() as int + 1) =~= behind);
}

/// A panel that was docked keeps its weight and, as a column of its own, its width;
/// one that floated or was nowhere gets what the module starts with. A column of its
/// own is never narrower than the module accepts nor wider than any column may be.
pub proof fn a_panel_let_go_weighs_what_it_did(drag: Drag)
    ensures
        drag.origin matches Origin::Dock { weight, width, .. } ==> {
            &&& LayoutView::drop_weight(drag) == weight
            &&& drag.kind.least_width() <= width <= 4_600_000 ==> LayoutView::drop_width(drag)
                == width
        },
        !(drag.origin is Dock) ==> {
            &&& LayoutView::drop_weight(drag) == drag.kind.starting_weight()
            &&& LayoutView::drop_width(drag) == drag.kind.starting_width()
        },
        drag.kind.least_width() <= LayoutView::drop_width(drag) <= 4_600_000,
{
}

/// A panel let go onto a column that is not there opens one at the inner end of that
/// side, at the size the module starts with.
pub proof fn a_drop_past_the_last_column_opens_one(
    v: LayoutView,
    side: Side,
    column: usize,
    index: usize,
)
    requires
        v.drag is Some,
        column >= v.columns(side).len(),
    ensures
        ({
            let after = v.dropped(DropTarget::Dock { side, column, index });
            let last = after.columns(side).last();
            let k = v.drag->0.kind;
            &&& after.columns(side).drop_last() == pruned_columns(v.columns(side))
            &&& last.panels == seq![Docked { kind: k, weight: k.starting_weight() as i64 }]
            &&& last.width == k.starting_width()
        }),
{
    let k = v.drag->0.kind;
    let columns = v.columns(side);
    let all = columns.push(ColumnView::of(k));
    let n = columns.len() as int;
    lemma_pruned_around(all, n);
    assert(all.take(n) =~= columns);
    assert(all.skip(n + 1) =~= Seq::<ColumnView>::empty());
    let after = v.dropped(DropTarget::Dock { side, column, index });
    assert(after.columns(side) == pruned_columns(all));
    assert(after.columns(side) =~= pruned_columns(columns).push(ColumnView::of(k)));
    assert(after.columns(side).drop_last() =~= pruned_columns(columns));
}

/// A panel put back where its column has gone since gets one again, at the inner end
/// of that side, with the weight it had and at least the width it had.
pub proof fn a_column_that_went_is_rebuilt(v: LayoutView, k: PanelKind, origin: Origin)
    requires
        origin is Dock,
        origin->column >= v.columns(origin->side).len(),
    ensures
        ({
            let after = v.with_put(k, origin).columns(origin->side);
            &&& after.drop_last() == v.columns(origin->side)
            &&& after.last().panels == seq![Docked { kind: k, weight: origin->weight }]
            &&& after.last().width >= origin->width
            &&& after.last().width >= k.least_width()
            &&& after.last().width == origin->width || after.last().width == k.least_width()
        }),
{
    let after = v.with_put(k, origin).columns(origin->side);
    assert(after.drop_last() =~= v.columns(origin->side));
}

// --- opening and closing ----------------------------------------------------

/// A module opened again goes to the bottom of the innermost column at the right, or
/// at the left where the right has none, with the weight it starts with; it moves no
/// other panel and widens the column only to what it needs. Where there is no column
/// at all it gets one at the right.
pub proof fn an_opened_module_goes_to_the_bottom_of_the_dock(v: LayoutView, k: PanelKind)
    requires
        v.place_of(k) is None,
    ensures
        ({
            let side = if v.right.len() > 0 || v.left.len() == 0 {
                Side::Right
            } else {
                Side::Left
            };
            let after = v.opened(k);
            let docked = Docked { kind: k, weight: k.starting_weight() as i64 };
            &&& after.columns(side.opposite()) == v.columns(side.opposite())
            &&& after.floating == v.floating
            &&& after.drag == v.drag
            &&& v.columns(side).len() > 0 ==> {
                &&& after.columns(side).len() == v.columns(side).len()
                &&& after.columns(side).drop_last() == v.columns(side).drop_last()
                &&& after.columns(side).last().panels == v.columns(side).last().panels.push(docked)
                &&& after.columns(side).last().width >= v.columns(side).last().width
            }
            &&& v.columns(side).len() == 0 ==> after.columns(side) == seq![
                ColumnView { panels: seq![docked], width: k.starting_width() as i64 },
            ]
        }),
{
    let side = v.open_side();
    let columns = v.columns(side);
    let after = v.opened(k);
    if columns.len() > 0 {
        let last = columns.last();
        let docked = Docked { kind: k, weight: k.starting_weight() as i64 };
        assert(last.panels.insert(last.panels.len() as int, docked) =~= last.panels.push(docked));
        assert(after.columns(side).drop_last() =~= columns.drop_last());
        crate::dock::model::lemma_widest_minimum(
            last.panels.push(docked),
            last.panels.len() as int + 1,
        );
    }
}

/// Closing a module moves no other: each is as often in the layout as before, and
/// the floats and the side it was not on are untouched.
pub proof fn closing_leaves_every_other_module(v: LayoutView, k: PanelKind, j: PanelKind)
    requires
        v.sound(),
        v.drag is None,
    ensures
        j != k ==> v.closed(k).placed(j) == v.placed(j),
        v.closed(k).dirty,
        v.closed(k).edit_mode == v.edit_mode,
        v.place_of(k) is None ==> v.closed(k).left == v.left && v.closed(k).right == v.right
            && v.closed(k).floating == v.floating,
        v.place_of(k) matches Some(Origin::Dock { side, column, index, .. }) ==> {
            &&& v.closed(k).floating == v.floating
            &&& v.closed(k).columns(side.opposite()) == v.columns(side.opposite())
            &&& v.columns(side)[column as int].panels.len() > 1 ==> {
                &&& v.closed(k).columns(side).len() == v.columns(side).len()
                &&& v.closed(k).columns(side)[column as int].width == v.columns(
                    side,
                )[column as int].width
                &&& v.closed(k).columns(side)[column as int].panels == v.columns(
                    side,
                )[column as int].panels.remove(index as int)
            }
        },
        v.place_of(k) is Some && v.place_of(k)->0 is Float ==> v.closed(k).left == v.left && v.closed(
            k,
        ).right == v.right,
{
    lemma_stack_small(v);
    lemma_closed(v, k);
    lemma_without(v, k);
    lemma_column_index(v.left, k, 0);
    lemma_column_index(v.right, k, 0);
    lemma_pruned(v.left);
    lemma_pruned(v.right);
    assert(v.closed(k).tally(j) == v.closed(k).placed(j));
    assert(v.tally(j) == v.placed(j));
    if let Some(Origin::Dock { side, column, index, .. }) = v.place_of(k) {
        let all = v.without(k).columns(side);
        if v.columns(side)[column as int].panels.len() > 1 {
            assert(no_blank(all)) by {
                assert forall|i: int| 0 <= i < all.len() implies (
                #[trigger] all[i]).panels.len() > 0 by {
                    assert(v.columns(side)[i].panels.len() > 0);
                }
            }
            lemma_pruned(all);
        }
    }
}

/// Going back to the shipped arrangement puts everything of it back, keeps the mode
/// the layout is in, and lets go of what was in hand.
pub proof fn a_reset_is_the_shipped_arrangement(v: LayoutView)
    ensures
        v.reset().left == LayoutView::shipped().left,
        v.reset().right == LayoutView::shipped().right,
        v.reset().floating.len() == 0,
        v.reset().drag is None,
        v.reset().edit_mode == v.edit_mode,
        v.reset().dirty,
{
}

/// The tools stand at the left and the colours, the brushes and the layers at the
/// right, in that order from the top.
pub proof fn the_shipped_arrangement_has_tools_left_and_the_rest_right()
    ensures
        ({
            let v = LayoutView::shipped();
            &&& v.left.len() == 1 && v.right.len() == 1
            &&& v.left[0].panels.len() == 1 && v.left[0].panels[0].kind == PanelKind::Tools
            &&& v.right[0].panels.len() == 3
            &&& v.right[0].panels[0].kind == PanelKind::Colour
            &&& v.right[0].panels[1].kind == PanelKind::Brushes
            &&& v.right[0].panels[2].kind == PanelKind::Layers
            &&& forall|i: int|
                0 <= i < 3 ==> (#[trigger] v.right[0].panels[i]).weight
                    == v.right[0].panels[i].kind.starting_weight()
            &&& v.left[0].panels[0].weight == PanelKind::Tools.starting_weight()
            &&& v.left[0].width == PanelKind::Tools.starting_width()
            &&& v.right[0].width == PanelKind::Colour.starting_width()
        }),
{
}

/// Entering edit mode moves nothing, and being told of the mode it is in changes
/// nothing at all.
pub proof fn entering_edit_mode_moves_nothing(v: LayoutView)
    ensures
        v.in_mode(v.edit_mode) == v,
        v.in_mode(true).edit_mode,
        v.in_mode(true).left == v.left,
        v.in_mode(true).right == v.right,
        v.in_mode(true).floating == v.floating,
        v.in_mode(true).drag == v.drag,
        v.in_mode(true).dirty == v.dirty,
{
}

// --- floats -----------------------------------------------------------------

/// A float whose size is in its limits and in the workspace's, that shows enough of
/// itself at either side and its header from top to bottom, stays where it is.
pub proof fn a_float_in_sight_stays_where_it_is(rect: Rect, workspace: Rect)
    requires
        workspace.in_reach(),
        rect.bounded(),
        1_900_000 <= rect.wide() <= 7_200_000,
        1_300_000 <= rect.tall() <= 9_000_000,
        rect.wide() <= workspace.wide() || rect.wide() == 1_900_000,
        rect.tall() <= workspace.tall() || rect.tall() == 1_300_000,
        rect.max.x >= workspace.min.x + 960_000,
        rect.min.x <= workspace.max.x - 960_000,
        workspace.min.y <= rect.min.y,
        rect.min.y <= workspace.max.y - 320_000 || rect.min.y == workspace.min.y,
    ensures
        place_in(rect, workspace) == rect,
{
}

/// A float is moved no further than it must be: one that is stranded beyond an edge
/// comes back to where exactly 96 points of it show there, one above the workspace to
/// its top, and one below it to where its header just shows.
pub proof fn a_stranded_float_comes_back_just_far_enough(rect: Rect, workspace: Rect)
    requires
        workspace.in_reach(),
        workspace.wide() >= 960_000,
        workspace.tall() >= 320_000,
        rect.bounded(),
    ensures
        ({
            let r = place_in(rect, workspace);
            &&& r.min.x == rect.min.x || r.max.x == workspace.min.x + 960_000 || r.min.x
                == workspace.max.x - 960_000
            &&& rect.min.x > workspace.max.x - 960_000 ==> r.min.x == workspace.max.x - 960_000
            &&& rect.min.x + r.wide() < workspace.min.x + 960_000 ==> r.max.x == workspace.min.x
                + 960_000
            &&& r.min.y == rect.min.y || r.min.y == workspace.min.y || r.min.y == workspace.max.y
                - 320_000
            &&& rect.min.y < workspace.min.y ==> r.min.y == workspace.min.y
            &&& rect.min.y > workspace.max.y - 320_000 ==> r.min.y == workspace.max.y - 320_000
        }),
{
}

/// A float's size is held to what a float may be and to the workspace, and is kept
/// where it already is.
pub proof fn a_pulled_back_float_keeps_its_size(rect: Rect, workspace: Rect)
    requires
        workspace.in_reach(),
        rect.bounded(),
    ensures
        ({
            let r = place_in(rect, workspace);
            &&& 1_900_000 <= r.wide() <= 7_200_000
            &&& 1_300_000 <= r.tall() <= 9_000_000
            &&& r.wide() <= workspace.wide() || r.wide() == 1_900_000
            &&& r.tall() <= workspace.tall() || r.tall() == 1_300_000
            &&& 1_900_000 <= rect.wide() <= 7_200_000 && rect.wide() <= workspace.wide()
                ==> r.wide() == rect.wide()
            &&& 1_300_000 <= rect.tall() <= 9_000_000 && rect.tall() <= workspace.tall()
                ==> r.tall() == rect.tall()
            &&& 1_900_000 <= rect.wide() && r.wide() < rect.wide() ==> r.wide() == 7_200_000
                || r.wide() == workspace.wide() || r.wide() == 1_900_000
            &&& 1_300_000 <= rect.tall() && r.tall() < rect.tall() ==> r.tall() == 9_000_000
                || r.tall() == workspace.tall() || r.tall() == 1_300_000
        }),
{
}

/// Pulling floats back keeps each of them, in its place among the others, and touches
/// no column.
pub proof fn pulling_back_keeps_every_float(v: LayoutView, workspace: Rect, i: int)
    requires
        0 <= i < v.floating.len(),
    ensures
        ({
            let after = v.pulled_back(workspace);
            &&& after.floating.len() == v.floating.len()
            &&& after.floating[i].kind == v.floating[i].kind
            &&& after.floating[i].rect == place_in(v.floating[i].rect, workspace)
            &&& after.left == v.left
            &&& after.right == v.right
            &&& after.drag == v.drag
            &&& after.dirty == v.dirty
        }),
{
}

/// Placing a float places that one and no other, and is due to be written only if it
/// moved anything.
pub proof fn placing_a_float_moves_only_it(v: LayoutView, k: PanelKind, rect: Rect)
    ensures
        ({
            let after = v.float_moved(k, rect);
            let f = float_index(v.floating, k, 0);
            &&& after.floating.len() == v.floating.len()
            &&& after.left == v.left
            &&& after.right == v.right
            &&& f < v.floating.len() ==> after.floating[f] == (Floating { kind: k, rect })
            &&& forall|i: int|
                0 <= i < v.floating.len() && i != f ==> #[trigger] after.floating[i]
                    == v.floating[i]
            &&& after.floating != v.floating ==> after.dirty
            &&& after.floating == v.floating ==> after.dirty == v.dirty
        }),
{
    lemma_float_index(v.floating, k, 0);
    let f = float_index(v.floating, k, 0);
    let after = v.float_moved(k, rect);
    if f < v.floating.len() && v.floating[f].rect != rect {
        assert(after.floating[f].rect == rect);
        assert(after.floating != v.floating);
    }
}

/// Bringing a float to the front puts it last, moves none of them, and leaves the
/// others in the order they were in.
pub proof fn raising_a_float_puts_it_in_front(v: LayoutView, k: PanelKind)
    requires
        float_index(v.floating, k, 0) < v.floating.len(),
    ensures
        ({
            let after = v.raised(k);
            let f = float_index(v.floating, k, 0);
            &&& after.floating.len() == v.floating.len()
            &&& after.floating.last() == v.floating[f]
            &&& after.floating.last().kind == k
            &&& forall|i: int| 0 <= i < f ==> #[trigger] after.floating[i] == v.floating[i]
            &&& forall|i: int|
                f <= i < v.floating.len() - 1 ==> #[trigger] after.floating[i] == v.floating[i + 1]
            &&& after.left == v.left
            &&& after.right == v.right
        }),
{
    lemma_float_index(v.floating, k, 0);
}

/// The pointer belongs to the layout over any floating panel, its edges included; and
/// outside edit mode and drags over nothing else.
pub proof fn a_float_takes_the_pointer_over_it(v: LayoutView, pointer: Pos2, i: int)
    requires
        0 <= i < v.floating.len(),
    ensures
        ({
            let r = v.floating[i].rect;
            r.min.x <= pointer.x <= r.max.x && r.min.y <= pointer.y <= r.max.y
        }) ==> v.blocks(pointer),
        !v.edit_mode && v.drag is None && (forall|j: int|
            0 <= j < v.floating.len() ==> {
                let r = (#[trigger] v.floating[j]).rect;
                pointer.x < r.min.x || pointer.x > r.max.x || pointer.y < r.min.y || pointer.y
                    > r.max.y
            }) ==> !v.blocks(pointer),
{
}

// --- splitters and widths ---------------------------------------------------

/// A boundary moves as far as it is dragged, down where it is dragged down, until one
/// of the two panels is at its minimum; further than that it does not go.
pub proof fn a_boundary_moves_as_far_as_it_is_dragged(
    heights: Seq<i128>,
    index: int,
    delta: int,
)
    requires
        0 <= index < heights.len() - 1,
        fine(960_000) <= heights[index] <= fine(4 * REACH),
        fine(960_000) <= heights[index + 1] <= fine(4 * REACH),
    ensures
        ({
            let next = split_heights(heights, index, delta);
            &&& heights[index] + fine(delta) >= fine(960_000) && heights[index + 1] - fine(delta)
                >= fine(960_000) ==> next[index] == heights[index] + fine(delta) && next[index + 1]
                == heights[index + 1] - fine(delta)
            &&& heights[index] + fine(delta) < fine(960_000) ==> next[index] == fine(960_000)
            &&& heights[index + 1] - fine(delta) < fine(960_000) ==> next[index + 1] == fine(
                960_000,
            )
        }),
{
}

/// A column dragged is as wide as the pointer asks, to the nearest point, between what
/// its modules need and 460 points, and no other column changes. It is due to be
/// written where that changed its width, and only there.
pub proof fn a_column_is_as_wide_as_it_is_dragged(
    v: LayoutView,
    side: Side,
    column: int,
    width: int,
)
    requires
        v.sound(),
        0 <= column < v.columns(side).len(),
    ensures
        ({
            let after = v.widened(side, column, width);
            let (c, w) = (v.columns(side)[column], after.columns(side)[column]);
            &&& c.least_width() <= width <= 4_600_000 ==> -5_000 <= w.width - width <= 5_000
            &&& width < c.least_width() ==> w.width == c.least_width()
            &&& width > 4_600_000 ==> w.width == 4_600_000
            &&& after.columns(side).len() == v.columns(side).len()
            &&& forall|i: int|
                0 <= i < v.columns(side).len() && i != column ==> #[trigger] after.columns(side)[i]
                    == v.columns(side)[i]
            &&& after.columns(side.opposite()) == v.columns(side.opposite())
            &&& after.floating == v.floating
            &&& w.width != c.width ==> after.dirty
            &&& w.width == c.width ==> after == v
        }),
{
    let c = v.columns(side)[column];
    assert(c.sound());
    if c.panels.len() > 0 {
        crate::dock::model::lemma_widest_minimum(c.panels, c.panels.len() as int);
    }
}

} // verus!
