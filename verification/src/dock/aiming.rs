//! Where columns, slots and drop targets are, said in coordinates: what a pointer
//! hits, and where the hint for it is drawn.

use crate::dock::geometry::{
    canvas_after, column_rect, column_share, column_under, insertion_index, lemma_canvas_after,
    lemma_column_share, slot_of, ColumnPlan, Plan,
};
use crate::dock::heights::{fine, lemma_top_in_room, stack_height};
use crate::dock::kind::Side;
use crate::dock::model::{ColumnView, DropTarget};
use crate::geom::{Pos2, Rect};
use vstd::prelude::*;

verus! {

// --- columns ----------------------------------------------------------------

/// A column is as wide as it was left, to the nearest point, where that leaves the
/// canvas its 190 points; where it does not, the canvas keeps just those, or the
/// column nothing.
pub proof fn a_column_takes_the_width_it_has_room_for(column: ColumnView, canvas: Rect)
    requires
        canvas.upright(),
        canvas.in_reach(),
        column.width >= 0,
    ensures
        ({
            let wide = column_share(column, canvas);
            &&& column.width <= canvas.wide() - 1_900_000 ==> -5_000 <= wide - column.width
                <= 5_000
            &&& canvas.wide() >= 1_900_000 && column.width > canvas.wide() - 1_900_000 ==> -5_000
                <= canvas.wide() - wide - 1_900_000 <= 5_000
            &&& canvas.wide() <= 1_900_000 ==> wide == 0
        }),
{
}

/// The first column of a side stands against that side's edge of the workspace, the
/// next against the first, and all of them are as tall as the workspace.
pub proof fn columns_stand_one_against_the_other(
    columns: Seq<ColumnView>,
    side: Side,
    canvas: Rect,
    n: int,
)
    requires
        canvas.upright(),
        canvas.in_reach(),
        0 <= n < columns.len(),
    ensures
        ({
            let r = column_rect(side, columns, canvas, n);
            &&& r.min.y == canvas.min.y
            &&& r.max.y == canvas.max.y
            &&& n == 0 && side is Left ==> r.min.x == canvas.min.x
            &&& n == 0 && side is Right ==> r.max.x == canvas.max.x
            &&& n > 0 && side is Left ==> r.min.x == column_rect(
                side,
                columns,
                canvas,
                n - 1,
            ).max.x
            &&& n > 0 && side is Right ==> r.max.x == column_rect(
                side,
                columns,
                canvas,
                n - 1,
            ).min.x
        }),
{
    lemma_canvas_after(side, columns, canvas, n);
    lemma_column_share(columns[n], canvas_after(side, columns, canvas, n));
    if n > 0 {
        lemma_canvas_after(side, columns, canvas, n - 1);
        lemma_column_share(columns[n - 1], canvas_after(side, columns, canvas, n - 1));
    }
}

/// A slot is as wide as its column, and as tall as its panel's share of it, to within
/// a hundredth of a hundredth of a point; the first begins at the column's top.
pub proof fn a_slot_is_as_tall_as_its_share(rect: Rect, weights: Seq<i64>, i: int)
    requires
        rect.upright(),
        rect.in_reach(),
        0 <= i < weights.len() <= 14,
        forall|j: int| 0 <= j < weights.len() ==> 0 <= #[trigger] weights[j],
    ensures
        ({
            let slot = slot_of(rect, weights, i);
            &&& slot.min.x == rect.min.x
            &&& slot.max.x == rect.max.x
            &&& i == 0 ==> slot.min.y == rect.min.y
            &&& fine(slot.tall()) - stack_height(weights, rect.tall(), i) <= fine(1)
            &&& stack_height(weights, rect.tall(), i) - fine(slot.tall()) <= fine(1)
        }),
{
    lemma_top_in_room(weights, rect.tall(), i);
    lemma_top_in_room(weights, rect.tall(), i + 1);
}

// --- aiming -----------------------------------------------------------------

/// A panel let go over a stack goes before the first panel whose middle is below the
/// pointer, and after all of them where there is none.
pub proof fn a_panel_goes_before_the_first_middle_below(slots: Seq<Rect>, y: int, from: int)
    requires
        0 <= from <= slots.len(),
    ensures
        ({
            let at = insertion_index(slots, y, from);
            &&& from <= at <= slots.len()
            &&& at < slots.len() ==> slots[at].min.y + slots[at].max.y > 2 * y
            &&& forall|i: int|
                from <= i < at ==> (#[trigger] slots[i]).min.y + slots[i].max.y <= 2 * y
        }),
    decreases slots.len() - from,
{
    if from < slots.len() && 2 * y >= slots[from].min.y + slots[from].max.y {
        a_panel_goes_before_the_first_middle_below(slots, y, from + 1);
    }
}

/// The column under the pointer is the first that it is in, edges included.
pub proof fn the_pointer_is_in_the_first_column_around_it(
    columns: Seq<ColumnPlan>,
    p: Pos2,
    from: int,
)
    requires
        0 <= from <= columns.len(),
    ensures
        ({
            let at = column_under(columns, p, from);
            &&& from <= at <= columns.len()
            &&& at < columns.len() ==> columns[at].rect.min.x <= p.x <= columns[at].rect.max.x
                && columns[at].rect.min.y <= p.y <= columns[at].rect.max.y
            &&& forall|i: int|
                from <= i < at ==> {
                    let r = (#[trigger] columns[i]).rect;
                    p.x < r.min.x || p.x > r.max.x || p.y < r.min.y || p.y > r.max.y
                }
        }),
    decreases columns.len() - from,
{
    if from < columns.len() && !columns[from].rect.holds(p) {
        the_pointer_is_in_the_first_column_around_it(columns, p, from + 1);
    }
}

/// Within 40 points of a column's outer edge, and within three tenths of its width, a
/// drop opens a column outside it; the same at its inner edge opens one inside it; in
/// between it stacks, at the height of the pointer.
pub proof fn edges_open_columns_and_middles_stack(plan: Plan, side: Side, p: Pos2, c: int)
    requires
        0 <= c < plan.columns(side).len() <= 1_000,
        c == column_under(plan.columns(side), p, 0),
        plan.columns(side)[c].rect.upright(),
        plan.columns(side)[c].slots.len() <= 1_000,
    ensures
        ({
            let column = plan.columns(side)[c];
            let r = column.rect;
            let left = p.x - r.min.x;
            let right = r.max.x - p.x;
            let outer = if side is Left {
                left
            } else {
                right
            };
            let inner = if side is Left {
                right
            } else {
                left
            };
            let t = plan.side_target(side, p);
            &&& outer <= 400_000 && 10 * outer <= 3 * r.wide() ==> t == Some(
                DropTarget::NewColumn { side, column: c as usize },
            )
            &&& outer > inner && inner <= 400_000 && 10 * inner <= 3 * r.wide() ==> t == Some(
                DropTarget::NewColumn { side, column: (c + 1) as usize },
            )
            &&& (outer > 400_000 || 10 * outer > 3 * r.wide()) && (inner > 400_000 || 10 * inner
                > 3 * r.wide()) ==> (t matches Some(DropTarget::Dock { side: s, column: k, index })
                && s == side && k == c && index == insertion_index(column.slots, p.y as int, 0))
        }),
{
    the_pointer_is_in_the_first_column_around_it(plan.columns(side), p, 0);
    a_panel_goes_before_the_first_middle_below(plan.columns(side)[c].slots, p.y as int, 0);
}

/// A side with no column takes a drop within 104 points of its edge of the canvas, but
/// never beyond the canvas's middle; a side with columns takes one over them.
pub proof fn an_empty_side_reaches_into_the_canvas(plan: Plan, side: Side)
    requires
        plan.canvas.upright(),
        plan.canvas.in_reach(),
        plan.columns(side).len() == 0,
    ensures
        ({
            let (zone, canvas) = (plan.zone_of(side), plan.canvas);
            &&& zone.min.y == canvas.min.y
            &&& zone.max.y == canvas.max.y
            &&& side is Left ==> zone.min.x == canvas.min.x
            &&& side is Right ==> zone.max.x == canvas.max.x
            &&& canvas.wide() >= 2_080_000 ==> zone.wide() == 1_040_000
            &&& canvas.wide() < 2_080_000 ==> 0 <= canvas.wide() - 2 * zone.wide() <= 1
        }),
{
}

/// The zone of a side that has columns covers the first of them and the last.
pub proof fn a_sides_zone_covers_its_columns(plan: Plan, side: Side, p: Pos2)
    requires
        plan.columns(side).len() > 0,
    ensures
        plan.columns(side).first().rect.holds(p) || plan.columns(side).last().rect.holds(p)
            ==> plan.zone_of(side).holds(p),
        plan.sidebar_of(side) == Some(plan.zone_of(side)),
{
}

/// Where the pointer is over neither side's columns, a panel let go floats; a side is
/// only aimed at over its own zone; and the left is asked first.
pub proof fn away_from_the_sides_a_panel_floats(plan: Plan, p: Pos2)
    ensures
        plan.target_of(p) is Float <==> plan.side_target(Side::Left, p) is None && plan.side_target(
            Side::Right,
            p,
        ) is None,
        plan.side_target(Side::Left, p) matches Some(t) ==> plan.target_of(p) == t,
        plan.target_of(p) matches DropTarget::Dock { side, .. } ==> plan.side_target(side, p) == Some(
            plan.target_of(p),
        ),
        plan.target_of(p) matches DropTarget::NewColumn { side, .. } ==> plan.side_target(side, p)
            == Some(plan.target_of(p)),
        forall|side: Side|
            plan.columns(side).len() > 0 ==> ((#[trigger] plan.side_target(side, p)) is Some <==> {
                exists|c: int|
                    0 <= c < plan.columns(side).len() && (#[trigger] plan.columns(
                        side,
                    )[c]).rect.holds(p)
            }),
{
    assert forall|side: Side| plan.columns(side).len() > 0 implies ((#[trigger] plan.side_target(
        side,
        p,
    )) is Some <==> {
        exists|c: int|
            0 <= c < plan.columns(side).len() && (#[trigger] plan.columns(side)[c]).rect.holds(p)
    }) by {
        the_pointer_is_in_the_first_column_around_it(plan.columns(side), p, 0);
        let c = column_under(plan.columns(side), p, 0);
        if c < plan.columns(side).len() {
            assert(plan.columns(side)[c].rect.holds(p));
        }
    }
}

// --- hints ------------------------------------------------------------------

/// The line for a drop into a stack lies along the top of the panel it goes before,
/// or along the bottom of the last, from one edge of the column to the other.
pub proof fn the_line_lies_where_the_panel_will_go(plan: Plan, side: Side, column: int, index: int)
    requires
        0 <= column < plan.columns(side).len(),
        index >= 0,
    ensures
        ({
            let c = plan.columns(side)[column];
            let (a, b) = plan.line_of(side, column, index);
            &&& a.x == c.rect.min.x
            &&& b.x == c.rect.max.x
            &&& a.y == b.y
            &&& index < c.slots.len() ==> a.y == c.slots[index].min.y
            &&& index >= c.slots.len() && c.slots.len() > 0 ==> a.y == c.slots.last().max.y
        }),
{
}

/// Where there is no such column, the line lies along the top of the side's zone, from one
/// edge of it to the other.
pub proof fn the_line_of_an_empty_side_tops_its_zone(plan: Plan, side: Side, column: int, index: int)
    requires
        column >= plan.columns(side).len(),
    ensures
        ({
            let (a, b) = plan.line_of(side, column, index);
            let zone = plan.zone_of(side);
            &&& a.x == zone.min.x
            &&& b.x == zone.max.x
            &&& a.y == zone.min.y
            &&& b.y == zone.min.y
        }),
{
}

/// A new column's strip stands at the boundary it will open: against the outer edge of
/// the column it pushes inwards, or against the inner edge of the last.
pub proof fn a_strip_stands_at_the_boundary_it_opens(plan: Plan, side: Side, column: int)
    requires
        0 <= column <= plan.columns(side).len(),
        plan.columns(side).len() > 0,
    ensures
        ({
            let edge = plan.boundary_of(side, column);
            let last = plan.columns(side).last().rect;
            &&& column < plan.columns(side).len() && side is Left ==> edge == plan.columns(
                side,
            )[column].rect.min.x
            &&& column < plan.columns(side).len() && side is Right ==> edge == plan.columns(
                side,
            )[column].rect.max.x
            &&& column == plan.columns(side).len() && side is Left ==> edge == last.max.x
            &&& column == plan.columns(side).len() && side is Right ==> edge == last.min.x
        }),
{
}

/// A strip that fits in the workspace is 104 points wide, reaches inwards from its
/// boundary and is as tall as the workspace; one that does not is cut off at the
/// workspace's edge.
pub proof fn a_strip_is_104_points_wide(plan: Plan, side: Side, column: int)
    requires
        plan.in_reach(),
        plan.workspace.wide() >= 1_040_000,
        plan.workspace.min.x <= plan.boundary_of(side, column) <= plan.workspace.max.x,
    ensures
        ({
            let strip = plan.column_strip_of(side, column);
            let edge = plan.boundary_of(side, column);
            &&& strip.min.y == plan.workspace.min.y
            &&& strip.max.y == plan.workspace.max.y
            &&& side is Left ==> strip.min.x == edge
            &&& side is Right ==> strip.max.x == edge
            &&& side is Left && edge + 1_040_000 <= plan.workspace.max.x ==> strip.wide()
                == 1_040_000
            &&& side is Right && edge - 1_040_000 >= plan.workspace.min.x ==> strip.wide()
                == 1_040_000
            &&& side is Left && edge + 1_040_000 > plan.workspace.max.x ==> strip.max.x
                == plan.workspace.max.x
            &&& side is Right && edge - 1_040_000 < plan.workspace.min.x ==> strip.min.x
                == plan.workspace.min.x
        }),
{
}

} // verus!
