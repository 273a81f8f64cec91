//! Where everything in a layout is drawn, and where a drop would land.

use crate::dock::count::lemma_stack_small;
use crate::dock::heights::{
    lemma_top_in_room, settle, settled, stack_height, stack_heights, stack_top, weight_sum,
};
use crate::dock::kind::Side;
use crate::dock::layout::Layout;
use crate::dock::limits;
use crate::dock::model::{
    column_views, Column, ColumnView, Docked, DropTarget, LayoutView,
};
use crate::geom::{
    abs_of, clamp_of, greatest, least, max_of, min_of, round, round_of, Pos2, Rect, REACH,
};
use vstd::prelude::*;

verus! {

/// One column's rectangles: the whole of it, and one slot per panel in it.
#[derive(Clone, Debug)]
pub struct ColumnGeometry {
    pub rect: Rect,
    pub slots: Vec<Rect>,
}

/// Everything the layout occupies this frame. Panels are drawn into these
/// rectangles, so hit testing and drawing cannot disagree.
#[derive(Clone, Debug)]
pub struct Geometry {
    /// Below the options strip, above the status bar, full window width.
    pub workspace: Rect,
    /// One entry per column at the left, from the window edge inwards.
    pub left: Vec<ColumnGeometry>,
    /// One entry per column at the right, from the window edge inwards.
    pub right: Vec<ColumnGeometry>,
    /// What is left for the document. Floating panels hover, so they do not
    /// come out of this.
    pub canvas: Rect,
}

#[verifier::ext_equal]
pub struct ColumnPlan {
    pub rect: Rect,
    pub slots: Seq<Rect>,
}

#[verifier::ext_equal]
pub struct Plan {
    pub workspace: Rect,
    pub left: Seq<ColumnPlan>,
    pub right: Seq<ColumnPlan>,
    pub canvas: Rect,
}

impl View for ColumnGeometry {
    type V = ColumnPlan;

    open spec fn view(&self) -> ColumnPlan {
        ColumnPlan { rect: self.rect, slots: self.slots@ }
    }
}

pub open spec fn column_plans(columns: Seq<ColumnGeometry>) -> Seq<ColumnPlan> {
    columns.map_values(|c: ColumnGeometry| c@)
}

impl View for Geometry {
    type V = Plan;

    open spec fn view(&self) -> Plan {
        Plan {
            workspace: self.workspace,
            left: column_plans(self.left@),
            right: column_plans(self.right@),
            canvas: self.canvas,
        }
    }
}

// --- laying out -------------------------------------------------------------

/// The rectangle with the same corner and no side less than nothing.
pub open spec fn upright_of(r: Rect) -> Rect {
    Rect {
        min: r.min,
        max: Pos2 {
            x: max_of(r.max.x as int, r.min.x as int) as i64,
            y: max_of(r.max.y as int, r.min.y as int) as i64,
        },
    }
}

/// How much of what is left for the canvas a column takes: what it asks for,
/// less what the document is always left, to whole points.
pub open spec fn column_share(column: ColumnView, canvas: Rect) -> int {
    round_of(
        clamp_of(
            min_of(
                max_of(column.width as int, 0),
                max_of(canvas.wide() - limits::CANVAS_MIN_WIDTH, 0),
            ),
            0,
            canvas.wide(),
        ),
    )
}

/// A strip of the canvas at one side.
pub open spec fn strip_of(side: Side, canvas: Rect, wide: int) -> Rect {
    match side {
        Side::Left => Rect {
            min: canvas.min,
            max: Pos2 { x: (canvas.min.x + wide) as i64, y: canvas.max.y },
        },
        Side::Right => Rect {
            min: Pos2 { x: (canvas.max.x - wide) as i64, y: canvas.min.y },
            max: canvas.max,
        },
    }
}

/// The canvas without that strip.
pub open spec fn rest_of(side: Side, canvas: Rect, wide: int) -> Rect {
    match side {
        Side::Left => Rect {
            min: Pos2 { x: (canvas.min.x + wide) as i64, y: canvas.min.y },
            max: canvas.max,
        },
        Side::Right => Rect {
            min: canvas.min,
            max: Pos2 { x: (canvas.max.x - wide) as i64, y: canvas.max.y },
        },
    }
}

/// What is left of the canvas once the first `n` columns have taken theirs.
pub open spec fn canvas_after(side: Side, columns: Seq<ColumnView>, canvas: Rect, n: int) -> Rect
    decreases n,
{
    if n <= 0 {
        canvas
    } else {
        let before = canvas_after(side, columns, canvas, n - 1);
        rest_of(side, before, column_share(columns[n - 1], before))
    }
}

/// The rectangle of column `n`: the outermost strip of what the columns before
/// it have left.
pub open spec fn column_rect(side: Side, columns: Seq<ColumnView>, canvas: Rect, n: int) -> Rect {
    let before = canvas_after(side, columns, canvas, n);
    strip_of(side, before, column_share(columns[n], before))
}

pub open spec fn weights_of(panels: Seq<Docked>) -> Seq<i64> {
    panels.map_values(|d: Docked| d.weight)
}

/// The slot of panel `i` in a column.
pub open spec fn slot_of(rect: Rect, weights: Seq<i64>, i: int) -> Rect {
    Rect {
        min: Pos2 {
            x: rect.min.x,
            y: (rect.min.y + settled(stack_top(weights, rect.tall(), i))) as i64,
        },
        max: Pos2 {
            x: rect.max.x,
            y: (rect.min.y + settled(stack_top(weights, rect.tall(), i + 1))) as i64,
        },
    }
}

pub open spec fn plan_of(side: Side, columns: Seq<ColumnView>, canvas: Rect, n: int) -> ColumnPlan {
    let rect = column_rect(side, columns, canvas, n);
    let weights = weights_of(columns[n].panels);
    ColumnPlan { rect, slots: Seq::new(weights.len(), |i: int| slot_of(rect, weights, i)) }
}

pub open spec fn plans_of(side: Side, columns: Seq<ColumnView>, canvas: Rect) -> Seq<ColumnPlan> {
    Seq::new(columns.len(), |n: int| plan_of(side, columns, canvas, n))
}

impl LayoutView {
    /// The layout, laid out: columns are peeled off the workspace from the edge
    /// inwards, the left side first, and what is left over is the canvas.
    pub open spec fn laid_out(self, workspace: Rect) -> Plan {
        let whole = upright_of(workspace);
        let middle = canvas_after(Side::Left, self.left, whole, self.left.len() as int);
        Plan {
            workspace: whole,
            left: plans_of(Side::Left, self.left, whole),
            right: plans_of(Side::Right, self.right, middle),
            canvas: canvas_after(Side::Right, self.right, middle, self.right.len() as int),
        }
    }
}

/// A column never takes more than there is, and leaves the canvas upright.
pub proof fn lemma_column_share(column: ColumnView, canvas: Rect)
    requires
        canvas.upright(),
        canvas.in_reach(),
    ensures
        0 <= column_share(column, canvas) <= canvas.wide(),
        canvas.wide() >= limits::CANVAS_MIN_WIDTH ==> canvas.wide() - column_share(column, canvas)
            > limits::CANVAS_MIN_WIDTH - crate::geom::POINT,
{
}

pub proof fn lemma_canvas_after(side: Side, columns: Seq<ColumnView>, canvas: Rect, n: int)
    requires
        canvas.upright(),
        canvas.in_reach(),
        n >= 0,
    ensures
        ({
            let c = canvas_after(side, columns, canvas, n);
            &&& c.upright()
            &&& canvas.min.x <= c.min.x
            &&& c.max.x <= canvas.max.x
            &&& c.min.y == canvas.min.y
            &&& c.max.y == canvas.max.y
            &&& side is Left ==> c.max.x == canvas.max.x
            &&& side is Right ==> c.min.x == canvas.min.x
        }),
    decreases n,
{
    if n > 0 {
        lemma_canvas_after(side, columns, canvas, n - 1);
        lemma_column_share(columns[n - 1], canvas_after(side, columns, canvas, n - 1));
    }
}

proof fn lemma_column_weights(panels: Seq<Docked>, n: int)
    requires
        0 <= n <= panels.len() <= 14,
        forall|i: int|
            0 <= i < panels.len() ==> 0 <= (#[trigger] panels[i]).weight <= limits::WEIGHT_LIMIT,
    ensures
        weight_sum(weights_of(panels), n) <= limits::WEIGHT_LIMIT * n,
    decreases n,
{
    if n > 0 {
        lemma_column_weights(panels, n - 1);
        assert(panels[n - 1].weight <= limits::WEIGHT_LIMIT);
    }
}

/// Lay one column out in its rectangle.
fn slots_in(panels: &Vec<Docked>, rect: Rect) -> (r: Vec<Rect>)
    requires
        rect.upright(),
        rect.in_reach(),
        panels@.len() <= 14,
        forall|i: int|
            0 <= i < panels@.len() ==> 0 <= (#[trigger] panels@[i]).weight <= limits::WEIGHT_LIMIT,
    ensures
        r@.len() == panels@.len(),
        forall|i: int|
            0 <= i < r@.len() ==> #[trigger] r@[i] == slot_of(rect, weights_of(panels@), i),
{
    let mut weights: Vec<i64> = Vec::new();
    let mut i: usize = 0;
    while i < panels.len()
        invariant
            0 <= i <= panels@.len(),
            weights@.len() == i,
            forall|j: int| 0 <= j < i ==> #[trigger] weights@[j] == panels@[j].weight,
        decreases panels@.len() - i,
    {
        weights.push(panels[i].weight);
        i += 1;
    }
    assert(weights@ =~= weights_of(panels@));
    proof {
        lemma_column_weights(panels@, panels@.len() as int);
        let n = panels@.len() as int;
        assert(limits::WEIGHT_LIMIT * n <= limits::WEIGHT_LIMIT * 14) by (nonlinear_arith)
            requires
                0 <= n <= 14,
        ;
    }
    let heights = stack_heights(weights.as_slice(), rect.height());
    let mut slots: Vec<Rect> = Vec::new();
    let mut down: i128 = 0;
    let mut k: usize = 0;
    while k < heights.len()
        invariant
            0 <= k <= heights@.len(),
            heights@.len() == weights@.len(),
            weights@ == weights_of(panels@),
            rect.upright(),
            rect.in_reach(),
            slots@.len() == k,
            down == stack_top(weights@, rect.tall(), k as int),
            forall|j: int|
                0 <= j < heights@.len() ==> #[trigger] heights@[j] == stack_height(
                    weights@,
                    rect.tall(),
                    j,
                ),
            forall|j: int| 0 <= j < k ==> #[trigger] slots@[j] == slot_of(rect, weights@, j),
        decreases heights@.len() - k,
    {
        proof {
            lemma_top_in_room(weights@, rect.tall(), k as int);
            lemma_top_in_room(weights@, rect.tall(), k + 1);
            assert(heights@[k as int] == stack_height(weights@, rect.tall(), k as int));
        }
        let top: i64 = rect.min.y + settle(down);
        down = down + heights[k];
        let bottom: i64 = rect.min.y + settle(down);
        slots.push(
            Rect { min: Pos2 { x: rect.min.x, y: top }, max: Pos2 { x: rect.max.x, y: bottom } },
        );
        k += 1;
    }
    slots
}

/// Peel the columns of one side off the canvas.
fn peel(side: Side, columns: &Vec<Column>, canvas: Rect) -> (r: (Vec<ColumnGeometry>, Rect))
    requires
        canvas.upright(),
        canvas.in_reach(),
        forall|i: int| 0 <= i < columns@.len() ==> (#[trigger] columns@[i]).panels@.len() <= 14,
        crate::dock::model::columns_sound(column_views(columns@)),
    ensures
        column_plans(r.0@) == plans_of(side, column_views(columns@), canvas),
        r.1 == canvas_after(side, column_views(columns@), canvas, columns@.len() as int),
{
    let ghost views = column_views(columns@);
    let mut out: Vec<ColumnGeometry> = Vec::new();
    let mut rest = canvas;
    let mut n: usize = 0;
    while n < columns.len()
        invariant
            0 <= n <= columns@.len(),
            canvas.upright(),
            canvas.in_reach(),
            views == column_views(columns@),
            crate::dock::model::columns_sound(views),
            forall|i: int|
                0 <= i < columns@.len() ==> (#[trigger] columns@[i]).panels@.len() <= 14,
            rest == canvas_after(side, views, canvas, n as int),
            out@.len() == n,
            forall|i: int|
                0 <= i < n ==> (#[trigger] out@[i])@ == plan_of(side, views, canvas, i),
        decreases columns@.len() - n,
    {
        proof {
            lemma_canvas_after(side, views, canvas, n as int);
            lemma_column_share(views[n as int], rest);
            assert(views[n as int] == columns@[n as int]@);
            assert(views[n as int].sound());
        }
        let whole: i64 = rest.width();
        let asked: i64 = least(
            greatest(columns[n].width, 0),
            greatest(whole - limits::CANVAS_MIN_WIDTH, 0),
        );
        let wide: i64 = round(crate::geom::clamp(asked, 0, whole));
        assert(wide == column_share(views[n as int], rest));
        let rect = match side {
            Side::Left => Rect {
                min: rest.min,
                max: Pos2 { x: rest.min.x + wide, y: rest.max.y },
            },
            Side::Right => Rect {
                min: Pos2 { x: rest.max.x - wide, y: rest.min.y },
                max: rest.max,
            },
        };
        assert(rect == column_rect(side, views, canvas, n as int));
        match side {
            Side::Left => {
                rest = Rect {
                    min: Pos2 { x: rest.min.x + wide, y: rest.min.y },
                    max: rest.max,
                };
            },
            Side::Right => {
                rest = Rect {
                    min: rest.min,
                    max: Pos2 { x: rest.max.x - wide, y: rest.max.y },
                };
            },
        }
        let slots = slots_in(&columns[n].panels, rect);
        let next = ColumnGeometry { rect, slots };
        assert(next@.slots =~= plan_of(side, views, canvas, n as int).slots);
        assert(next@ =~= plan_of(side, views, canvas, n as int));
        out.push(next);
        n += 1;
    }
    assert(column_plans(out@) =~= plans_of(side, views, canvas));
    (out, rest)
}

impl Layout {
    /// Lay the whole thing out inside `workspace`.
    pub fn geometry(&self, workspace: Rect) -> (r: Geometry)
        requires
            self@.sound(),
            workspace.in_reach(),
        ensures
            r@ == self@.laid_out(workspace),
            r@.in_reach(),
    {
        proof {
            lemma_stack_small(self@);
            assert forall|i: int| 0 <= i < self.left@.len() implies (
            #[trigger] self.left@[i]).panels@.len() <= 14 by {
                assert(self@.left[i] == self.left@[i]@);
            }
            assert forall|i: int| 0 <= i < self.right@.len() implies (
            #[trigger] self.right@[i]).panels@.len() <= 14 by {
                assert(self@.right[i] == self.right@[i]@);
            }
        }
        let whole = Rect {
            min: workspace.min,
            max: Pos2 {
                x: greatest(workspace.max.x, workspace.min.x),
                y: greatest(workspace.max.y, workspace.min.y),
            },
        };
        let (left, middle) = peel(Side::Left, &self.left, whole);
        proof {
            lemma_canvas_after(Side::Left, self@.left, whole, self@.left.len() as int);
        }
        let (right, canvas) = peel(Side::Right, &self.right, middle);
        let r = Geometry { workspace: whole, left, right, canvas };
        assert(r@ =~= self@.laid_out(workspace));
        proof {
            lemma_plan_in_reach(self@, workspace);
        }
        r
    }
}

// --- what a plan keeps ------------------------------------------------------

pub open spec fn plans_in_reach(columns: Seq<ColumnPlan>) -> bool {
    forall|i: int|
        0 <= i < columns.len() ==> {
            &&& (#[trigger] columns[i]).rect.in_reach()
            &&& forall|j: int|
                0 <= j < columns[i].slots.len() ==> (#[trigger] columns[i].slots[j]).in_reach()
        }
}

impl Plan {
    /// Every coordinate is one the arithmetic has room for.
    pub open spec fn in_reach(self) -> bool {
        &&& self.workspace.in_reach()
        &&& self.canvas.in_reach()
        &&& plans_in_reach(self.left)
        &&& plans_in_reach(self.right)
    }

    pub open spec fn columns(self, side: Side) -> Seq<ColumnPlan> {
        match side {
            Side::Left => self.left,
            Side::Right => self.right,
        }
    }
}

proof fn lemma_plans_in_reach(side: Side, columns: Seq<ColumnView>, canvas: Rect)
    requires
        canvas.upright(),
        canvas.in_reach(),
    ensures
        plans_in_reach(plans_of(side, columns, canvas)),
{
    let plans = plans_of(side, columns, canvas);
    assert forall|i: int| 0 <= i < plans.len() implies {
        &&& (#[trigger] plans[i]).rect.in_reach()
        &&& forall|j: int| 0 <= j < plans[i].slots.len() ==> (
        #[trigger] plans[i].slots[j]).in_reach()
    } by {
        lemma_canvas_after(side, columns, canvas, i);
        lemma_column_share(columns[i], canvas_after(side, columns, canvas, i));
        let weights = weights_of(columns[i].panels);
        assert forall|j: int| 0 <= j < plans[i].slots.len() implies (
        #[trigger] plans[i].slots[j]).in_reach() by {
            lemma_top_in_room(weights, plans[i].rect.tall(), j);
            lemma_top_in_room(weights, plans[i].rect.tall(), j + 1);
        }
    }
}

pub proof fn lemma_plan_in_reach(v: LayoutView, workspace: Rect)
    requires
        workspace.in_reach(),
    ensures
        v.laid_out(workspace).in_reach(),
{
    let whole = upright_of(workspace);
    let middle = canvas_after(Side::Left, v.left, whole, v.left.len() as int);
    lemma_canvas_after(Side::Left, v.left, whole, v.left.len() as int);
    lemma_plans_in_reach(Side::Left, v.left, whole);
    lemma_canvas_after(Side::Right, v.right, middle, v.right.len() as int);
    lemma_plans_in_reach(Side::Right, v.right, middle);
}

// --- where a drop lands -----------------------------------------------------

/// The first slot at or after `from` whose middle is below `y`: where a panel
/// dropped at that height is inserted.
pub open spec fn insertion_index(slots: Seq<Rect>, y: int, from: int) -> int
    decreases slots.len() - from,
{
    if 0 <= from < slots.len() && 2 * y >= slots[from].min.y + slots[from].max.y {
        insertion_index(slots, y, from + 1)
    } else {
        from
    }
}

/// The first column at or after `from` that the pointer is over.
pub open spec fn column_under(columns: Seq<ColumnPlan>, p: Pos2, from: int) -> int
    decreases columns.len() - from,
{
    if 0 <= from < columns.len() && !columns[from].rect.holds(p) {
        column_under(columns, p, from + 1)
    } else {
        from
    }
}

pub open spec fn outer_edge(side: Side, r: Rect) -> int {
    match side {
        Side::Left => r.min.x as int,
        Side::Right => r.max.x as int,
    }
}

pub open spec fn inner_edge(side: Side, r: Rect) -> int {
    match side {
        Side::Left => r.max.x as int,
        Side::Right => r.min.x as int,
    }
}

/// Whether a distance from a column's edge lies in the band that asks for a new
/// column: at most [`limits::NEW_COLUMN_ZONE`], and at most three tenths of the
/// column.
pub open spec fn in_band(distance: int, r: Rect) -> bool {
    abs_of(distance) <= limits::NEW_COLUMN_ZONE && 10 * abs_of(distance) <= 3 * r.wide()
}

impl Plan {
    /// The whole of one side, or nothing when nothing is docked there.
    pub open spec fn sidebar_of(self, side: Side) -> Option<Rect> {
        let columns = self.columns(side);
        if columns.len() == 0 {
            None
        } else {
            Some(columns.first().rect.joined(columns.last().rect))
        }
    }

    /// The region that counts as "drop into this side". A side with nothing
    /// docked has a strip at that edge of the canvas.
    pub open spec fn zone_of(self, side: Side) -> Rect {
        match self.sidebar_of(side) {
            Some(rect) => rect,
            None => strip_of(
                side,
                self.canvas,
                min_of(limits::EMPTY_ZONE_WIDTH as int, crate::geom::half_of(self.canvas.wide())),
            ),
        }
    }

    /// Where a release on one side would put the panel; nothing when the
    /// pointer is not over that side.
    pub open spec fn side_target(self, side: Side, p: Pos2) -> Option<DropTarget> {
        let columns = self.columns(side);
        if columns.len() == 0 {
            if self.zone_of(side).holds(p) {
                Some(DropTarget::NewColumn { side, column: 0 })
            } else {
                None
            }
        } else {
            let c = column_under(columns, p, 0);
            if c >= columns.len() {
                None
            } else {
                let r = columns[c].rect;
                Some(
                    if in_band(p.x - outer_edge(side, r), r) {
                        DropTarget::NewColumn { side, column: c as usize }
                    } else if in_band(p.x - inner_edge(side, r), r) {
                        DropTarget::NewColumn { side, column: (c + 1) as usize }
                    } else {
                        DropTarget::Dock {
                            side,
                            column: c as usize,
                            index: insertion_index(columns[c].slots, p.y as int, 0) as usize,
                        }
                    },
                )
            }
        }
    }

    /// Where a release would put the panel: the left side, the right side, or
    /// afloat.
    pub open spec fn target_of(self, p: Pos2) -> DropTarget {
        match self.side_target(Side::Left, p) {
            Some(t) => t,
            None => match self.side_target(Side::Right, p) {
                Some(t) => t,
                None => DropTarget::Float,
            },
        }
    }

    /// The line a dock drop would insert at.
    pub open spec fn line_of(self, side: Side, column: int, index: int) -> (Pos2, Pos2) {
        let columns = self.columns(side);
        if 0 <= column < columns.len() {
            let c = columns[column];
            let y = if 0 <= index < c.slots.len() {
                c.slots[index].min.y
            } else if c.slots.len() > 0 {
                c.slots.last().max.y
            } else {
                c.rect.min.y
            };
            (Pos2 { x: c.rect.min.x, y }, Pos2 { x: c.rect.max.x, y })
        } else {
            let zone = self.zone_of(side);
            (zone.min, Pos2 { x: zone.max.x, y: zone.min.y })
        }
    }

    /// The boundary a column inserted at `column` would stand against.
    pub open spec fn boundary_of(self, side: Side, column: int) -> int {
        let columns = self.columns(side);
        if 0 <= column < columns.len() {
            outer_edge(side, columns[column].rect)
        } else if columns.len() > 0 {
            inner_edge(side, columns.last().rect)
        } else {
            outer_edge(side, self.canvas)
        }
    }

    /// Where a column inserted at `column` would appear: a hint at the
    /// boundary, kept inside the workspace.
    pub open spec fn column_strip_of(self, side: Side, column: int) -> Rect {
        let edge = self.boundary_of(side, column);
        let wide = max_of(min_of(limits::EMPTY_ZONE_WIDTH as int, self.workspace.wide()), 0);
        let (a, b) = match side {
            Side::Left => (edge, edge + wide),
            Side::Right => (edge - wide, edge),
        };
        let left = min_of(
            max_of(a, self.workspace.min.x as int),
            self.workspace.max.x as int,
        );
        let right = max_of(min_of(b, self.workspace.max.x as int), left);
        Rect {
            min: Pos2 { x: left as i64, y: self.workspace.min.y },
            max: Pos2 { x: right as i64, y: self.workspace.max.y },
        }
    }
}

/// Index a panel dropped at height `y` is inserted at.
pub fn insert_index(slots: &Vec<Rect>, y: i64) -> (r: usize)
    requires
        crate::geom::within_reach(y as int),
        forall|j: int| 0 <= j < slots@.len() ==> (#[trigger] slots@[j]).in_reach(),
    ensures
        r == insertion_index(slots@, y as int, 0),
        r <= slots@.len(),
{
    let mut i: usize = 0;
    while i < slots.len()
        invariant
            0 <= i <= slots@.len(),
            crate::geom::within_reach(y as int),
            forall|j: int| 0 <= j < slots@.len() ==> (#[trigger] slots@[j]).in_reach(),
            insertion_index(slots@, y as int, 0) == insertion_index(slots@, y as int, i as int),
        decreases slots@.len() - i,
    {
        assert(slots@[i as int].in_reach());
        if 2 * y < slots[i].min.y + slots[i].max.y {
            return i;
        }
        i += 1;
    }
    i
}

fn within_band(distance: i64, r: Rect) -> (b: bool)
    requires
        r.in_reach(),
        -2 * REACH <= distance <= 2 * REACH,
    ensures
        b == in_band(distance as int, r),
{
    let d: i64 = if distance >= 0 {
        distance
    } else {
        -distance
    };
    d <= limits::NEW_COLUMN_ZONE && 10 * d <= 3 * r.width()
}

impl Geometry {
    pub fn columns(&self, side: Side) -> (r: &Vec<ColumnGeometry>)
        ensures
            column_plans(r@) == self@.columns(side),
    {
        match side {
            Side::Left => &self.left,
            Side::Right => &self.right,
        }
    }

    /// The whole of one side, or `None` when nothing is docked there.
    pub fn sidebar(&self, side: Side) -> (r: Option<Rect>)
        ensures
            r == self@.sidebar_of(side),
    {
        let columns = self.columns(side);
        if columns.len() == 0 {
            return None;
        }
        assert(self@.columns(side).first() == columns@[0]@);
        assert(self@.columns(side).last() == columns@[columns@.len() - 1]@);
        Some(columns[0].rect.union(columns[columns.len() - 1].rect))
    }

    /// The region that counts as "drop into this side".
    pub fn drop_zone(&self, side: Side) -> (r: Rect)
        requires
            self@.in_reach(),
        ensures
            r == self@.zone_of(side),
    {
        if let Some(rect) = self.sidebar(side) {
            return rect;
        }
        let wide: i64 = least(limits::EMPTY_ZONE_WIDTH, crate::geom::half(self.canvas.width()));
        match side {
            Side::Left => Rect {
                min: self.canvas.min,
                max: Pos2 { x: self.canvas.min.x + wide, y: self.canvas.max.y },
            },
            Side::Right => Rect {
                min: Pos2 { x: self.canvas.max.x - wide, y: self.canvas.min.y },
                max: self.canvas.max,
            },
        }
    }

    fn target_on(&self, side: Side, pointer: Pos2) -> (r: Option<DropTarget>)
        requires
            self@.in_reach(),
            pointer.in_reach(),
        ensures
            r == self@.side_target(side, pointer),
    {
        let columns = self.columns(side);
        if columns.len() == 0 {
            return if self.drop_zone(side).contains(pointer) {
                Some(DropTarget::NewColumn { side, column: 0 })
            } else {
                None
            };
        }
        let ghost plans = self@.columns(side);
        let mut c: usize = 0;
        while c < columns.len()
            invariant
                0 <= c <= columns@.len(),
                plans == column_plans(columns@),
                plans == self@.columns(side),
                plans.len() > 0,
                plans_in_reach(plans),
                pointer.in_reach(),
                column_under(plans, pointer, 0) == column_under(plans, pointer, c as int),
            decreases columns@.len() - c,
        {
            assert(plans[c as int] == columns@[c as int]@);
            assert(plans[c as int].rect.in_reach());
            let rect = columns[c].rect;
            if rect.contains(pointer) {
                let (outer, inner): (i64, i64) = match side {
                    Side::Left => (rect.min.x, rect.max.x),
                    Side::Right => (rect.max.x, rect.min.x),
                };
                if within_band(pointer.x - outer, rect) {
                    return Some(DropTarget::NewColumn { side, column: c });
                }
                if within_band(pointer.x - inner, rect) {
                    return Some(DropTarget::NewColumn { side, column: c + 1 });
                }
                assert(forall|j: int|
                    0 <= j < plans[c as int].slots.len() ==> (
                    #[trigger] plans[c as int].slots[j]).in_reach());
                return Some(
                    DropTarget::Dock {
                        side,
                        column: c,
                        index: insert_index(&columns[c].slots, pointer.y),
                    },
                );
            }
            c += 1;
        }
        None
    }

    /// Where a release at `pointer` would put the panel.
    pub fn drop_target(&self, pointer: Pos2) -> (r: DropTarget)
        requires
            self@.in_reach(),
            pointer.in_reach(),
        ensures
            r == self@.target_of(pointer),
    {
        if let Some(target) = self.target_on(Side::Left, pointer) {
            return target;
        }
        match self.target_on(Side::Right, pointer) {
            Some(target) => target,
            None => DropTarget::Float,
        }
    }

    /// The line a dock drop would insert at, for the drop indicator.
    pub fn insertion_line(&self, side: Side, column: usize, index: usize) -> (r: (Pos2, Pos2))
        requires
            self@.in_reach(),
        ensures
            r == self@.line_of(side, column as int, index as int),
    {
        let columns = self.columns(side);
        if column >= columns.len() {
            let zone = self.drop_zone(side);
            return (zone.min, Pos2 { x: zone.max.x, y: zone.min.y });
        }
        assert(self@.columns(side)[column as int] == columns@[column as int]@);
        let slots = &columns[column].slots;
        let rect = columns[column].rect;
        let y: i64 = if index < slots.len() {
            slots[index].min.y
        } else if slots.len() > 0 {
            slots[slots.len() - 1].max.y
        } else {
            rect.min.y
        };
        (Pos2 { x: rect.min.x, y }, Pos2 { x: rect.max.x, y })
    }

    /// Where a column inserted at `column` would appear, for the drop
    /// indicator.
    pub fn new_column_strip(&self, side: Side, column: usize) -> (r: Rect)
        requires
            self@.in_reach(),
        ensures
            r == self@.column_strip_of(side, column as int),
    {
        let columns = self.columns(side);
        let ghost plans = self@.columns(side);
        let edge: i64 = if column < columns.len() {
            assert(plans[column as int] == columns@[column as int]@);
            assert(plans[column as int].rect.in_reach());
            match side {
                Side::Left => columns[column].rect.min.x,
                Side::Right => columns[column].rect.max.x,
            }
        } else if columns.len() > 0 {
            assert(plans[plans.len() - 1] == columns@[columns@.len() - 1]@);
            assert(plans[plans.len() - 1].rect.in_reach());
            match side {
                Side::Left => columns[columns.len() - 1].rect.max.x,
                Side::Right => columns[columns.len() - 1].rect.min.x,
            }
        } else {
            match side {
                Side::Left => self.canvas.min.x,
                Side::Right => self.canvas.max.x,
            }
        };
        let wide: i64 = greatest(least(limits::EMPTY_ZONE_WIDTH, self.workspace.width()), 0);
        let (a, b): (i64, i64) = match side {
            Side::Left => (edge, edge + wide),
            Side::Right => (edge - wide, edge),
        };
        let left: i64 = least(greatest(a, self.workspace.min.x), self.workspace.max.x);
        let right: i64 = greatest(least(b, self.workspace.max.x), left);
        Rect {
            min: Pos2 { x: left, y: self.workspace.min.y },
            max: Pos2 { x: right, y: self.workspace.max.y },
        }
    }
}

} // verus!
