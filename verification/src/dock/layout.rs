//! The layout itself, and everything that can be done to one.

use crate::dock::count::lemma_stack_small;
use crate::dock::heights::{fine, height_weight, weight_sum, FINE};
use crate::dock::keep::{
    lemma_cancelled, lemma_closed, lemma_dropped, lemma_float_moved, lemma_lifted, lemma_opened,
    lemma_picked_up, lemma_pulled_back, lemma_raised, lemma_reweighted, lemma_shipped,
    lemma_widened,
};
use crate::dock::kind::{PanelKind, Side};
use crate::dock::limits;
use crate::dock::model::{
    column_index, column_views, float_index, heights_in_reach, lemma_widest_minimum, panel_index,
    place_in, pruned_columns, spare, spare_weights, split_delta, split_heights, weighted, widest_minimum,
    with_panels, Column, ColumnView, Docked, Drag, DropTarget, Floating, LayoutView, Origin,
};
use crate::geom::{clamp, greatest, half, least, round, Pos2, Rect, Vec2, POINT, REACH};
use crate::metrics;
use vstd::prelude::*;

verus! {

/// Which modules are docked where, which float, and which is in hand.
pub struct Layout {
    /// Columns at the left, from the window edge inwards.
    pub left: Vec<Column>,
    /// Columns at the right, from the window edge inwards.
    pub right: Vec<Column>,
    /// Draw order, and therefore z-order: the last one is on top.
    pub floating: Vec<Floating>,
    pub drag: Option<Drag>,
    /// Panels are only draggable while it is on, and the canvas is paused for
    /// as long as it is. Deliberately not saved.
    pub edit_mode: bool,
    /// Set by every change; cleared once the config file has been written.
    pub dirty: bool,
}

impl View for Layout {
    type V = LayoutView;

    open spec fn view(&self) -> LayoutView {
        LayoutView {
            left: column_views(self.left@),
            right: column_views(self.right@),
            floating: self.floating@,
            drag: self.drag,
            edit_mode: self.edit_mode,
            dirty: self.dirty,
        }
    }
}

impl Column {
    /// A column holding only this module.
    pub fn of(kind: PanelKind) -> (r: Column)
        ensures
            r@ == ColumnView::of(kind),
    {
        let mut panels: Vec<Docked> = Vec::new();
        panels.push(Docked { kind, weight: kind.default_weight() });
        let r = Column { panels, width: kind.default_width() };
        assert(r@ =~= ColumnView::of(kind));
        r
    }

    /// The widest minimum among the modules in it.
    pub fn min_width(&self) -> (r: i64)
        ensures
            r == self@.least_width(),
            metrics::TOOL_RAIL <= r <= limits::SIDEBAR_MIN_WIDTH,
            r as int % POINT as int == 0,
    {
        if self.panels.len() == 0 {
            return limits::SIDEBAR_MIN_WIDTH;
        }
        proof {
            lemma_widest_minimum(self.panels@, self.panels@.len() as int);
        }
        let mut widest: i64 = self.panels[0].kind.min_width();
        let mut i: usize = 1;
        while i < self.panels.len()
            invariant
                1 <= i <= self.panels.len(),
                widest == widest_minimum(self.panels@, i as int),
            decreases self.panels.len() - i,
        {
            widest = greatest(widest, self.panels[i].kind.min_width());
            i += 1;
        }
        widest
    }
}

impl Drag {
    /// Rectangle the panel would occupy if released here as a float.
    pub fn float_rect(&self) -> (r: Rect)
        requires
            crate::dock::model::drag_sound(*self),
        ensures
            r == self.float_place(),
            r.bounded(),
    {
        Rect::from_min_size(
            Pos2 { x: self.pointer.x - self.grab.x, y: self.pointer.y - self.grab.y },
            self.float_size,
        )
    }
}

// --- columns ----------------------------------------------------------------

fn find_panel(panels: &Vec<Docked>, k: PanelKind) -> (r: Option<usize>)
    ensures
        match r {
            Some(i) => i == panel_index(panels@, k, 0) && i < panels@.len(),
            None => panel_index(panels@, k, 0) >= panels@.len(),
        },
{
    let mut i: usize = 0;
    while i < panels.len()
        invariant
            0 <= i <= panels.len(),
            panel_index(panels@, k, 0) == panel_index(panels@, k, i as int),
        decreases panels.len() - i,
    {
        if panels[i].kind == k {
            return Some(i);
        }
        i += 1;
    }
    None
}

/// The first column that holds the module, and where in it.
fn find_docked(columns: &Vec<Column>, k: PanelKind) -> (r: Option<(usize, usize)>)
    ensures
        match r {
            Some((c, i)) => {
                &&& c == column_index(column_views(columns@), k, 0)
                &&& c < columns@.len()
                &&& i == panel_index(columns@[c as int].panels@, k, 0)
                &&& i < columns@[c as int].panels@.len()
            },
            None => column_index(column_views(columns@), k, 0) >= columns@.len(),
        },
{
    let mut c: usize = 0;
    while c < columns.len()
        invariant
            0 <= c <= columns.len(),
            column_index(column_views(columns@), k, 0) == column_index(
                column_views(columns@),
                k,
                c as int,
            ),
        decreases columns.len() - c,
    {
        assert(column_views(columns@)[c as int].panels == columns@[c as int].panels@);
        if let Some(i) = find_panel(&columns[c].panels, k) {
            return Some((c, i));
        }
        c += 1;
    }
    None
}

fn find_float(floating: &Vec<Floating>, k: PanelKind) -> (r: Option<usize>)
    ensures
        match r {
            Some(i) => i == float_index(floating@, k, 0) && i < floating@.len(),
            None => float_index(floating@, k, 0) >= floating@.len(),
        },
{
    let mut i: usize = 0;
    while i < floating.len()
        invariant
            0 <= i <= floating.len(),
            float_index(floating@, k, 0) == float_index(floating@, k, i as int),
        decreases floating.len() - i,
    {
        if floating[i].kind == k {
            return Some(i);
        }
        i += 1;
    }
    None
}

fn remove_panel(columns: &mut Vec<Column>, c: usize, i: usize)
    requires
        c < old(columns)@.len(),
        i < old(columns)@[c as int].panels@.len(),
    ensures
        column_views(final(columns)@) == with_panels(
            column_views(old(columns)@),
            c as int,
            old(columns)@[c as int].panels@.remove(i as int),
        ),
{
    columns[c].panels.remove(i);
    assert(column_views(columns@) =~= with_panels(
        column_views(old(columns)@),
        c as int,
        old(columns)@[c as int].panels@.remove(i as int),
    ));
}

/// Put a panel into the stack of a column, and widen the column to what the
/// panel needs.
fn insert_panel(columns: &mut Vec<Column>, c: usize, i: usize, docked: Docked)
    requires
        c < old(columns)@.len(),
        i <= old(columns)@[c as int].panels@.len(),
    ensures
        column_views(final(columns)@) == column_views(old(columns)@).update(
            c as int,
            old(columns)@[c as int]@.stacked(i as int, docked),
        ),
{
    columns[c].panels.insert(i, docked);
    let least: i64 = columns[c].min_width();
    if columns[c].width < least {
        columns[c].width = least;
    }
    assert(columns@[c as int]@ =~= old(columns)@[c as int]@.stacked(i as int, docked));
    assert(column_views(columns@) =~= column_views(old(columns)@).update(
        c as int,
        old(columns)@[c as int]@.stacked(i as int, docked),
    ));
}

/// Put a panel at the bottom of a column, whose width stays as it is.
fn append_panel(columns: &mut Vec<Column>, c: usize, docked: Docked)
    requires
        c < old(columns)@.len(),
    ensures
        column_views(final(columns)@) == with_panels(
            column_views(old(columns)@),
            c as int,
            old(columns)@[c as int].panels@.push(docked),
        ),
{
    columns[c].panels.push(docked);
    assert(column_views(columns@) =~= with_panels(
        column_views(old(columns)@),
        c as int,
        old(columns)@[c as int].panels@.push(docked),
    ));
}

fn insert_column(columns: &mut Vec<Column>, c: usize, column: Column)
    requires
        c <= old(columns)@.len(),
    ensures
        column_views(final(columns)@) == column_views(old(columns)@).insert(c as int, column@),
{
    columns.insert(c, column);
    assert(column_views(columns@) =~= column_views(old(columns)@).insert(c as int, column@));
}

/// Give the panels of one column these weights.
fn set_weights(columns: &mut Vec<Column>, c: usize, weights: &Vec<i64>)
    requires
        c < old(columns)@.len(),
        weights@.len() == old(columns)@[c as int].panels@.len(),
    ensures
        column_views(final(columns)@) == with_panels(
            column_views(old(columns)@),
            c as int,
            weighted(old(columns)@[c as int].panels@, weights@),
        ),
{
    let ghost before = columns@;
    let mut i: usize = 0;
    while i < weights.len()
        invariant
            0 <= i <= weights@.len(),
            c < before.len(),
            columns@.len() == before.len(),
            weights@.len() == before[c as int].panels@.len(),
            columns@[c as int].panels@.len() == before[c as int].panels@.len(),
            columns@[c as int].width == before[c as int].width,
            forall|j: int|
                0 <= j < i ==> #[trigger] columns@[c as int].panels@[j] == weighted(
                    before[c as int].panels@,
                    weights@,
                )[j],
            forall|j: int|
                i <= j < weights@.len() ==> #[trigger] columns@[c as int].panels@[j]
                    == before[c as int].panels@[j],
            forall|d: int| 0 <= d < before.len() && d != c ==> #[trigger] columns@[d] == before[d],
        decreases weights@.len() - i,
    {
        columns[c].panels[i].weight = weights[i];
        i += 1;
    }
    assert(columns@[c as int].panels@ =~= weighted(before[c as int].panels@, weights@));
    assert(column_views(columns@) =~= with_panels(
        column_views(before),
        c as int,
        weighted(before[c as int].panels@, weights@),
    ));
}

/// Drop the columns left with nothing in them.
fn prune_columns(columns: &mut Vec<Column>)
    ensures
        column_views(final(columns)@) == pruned_columns(column_views(old(columns)@)),
{
    let ghost before = column_views(columns@);
    let ghost mut seen: int = 0;
    let mut i: usize = 0;
    assert(pruned_columns(before.take(0)) =~= before.take(0));
    assert(column_views(columns@) =~= pruned_columns(before.take(0)) + before.skip(0));
    while i < columns.len()
        invariant
            0 <= seen <= before.len(),
            i == pruned_columns(before.take(seen)).len(),
            column_views(columns@) == pruned_columns(before.take(seen)) + before.skip(seen),
        decreases columns.len() - i,
    {
        let ghost kept = pruned_columns(before.take(seen));
        proof {
            assert(column_views(columns@).len() == kept.len() + before.skip(seen).len());
            assert(before.take(seen + 1).drop_last() =~= before.take(seen));
            assert(before.skip(seen)[0] == before[seen]);
            assert(column_views(columns@)[i as int] == before[seen]);
            assert(columns@[i as int]@ == before[seen]);
        }
        if columns[i].panels.len() == 0 {
            let ghost was = column_views(columns@);
            columns.remove(i);
            assert(column_views(columns@) =~= was.remove(i as int));
            assert(column_views(columns@) =~= kept + before.skip(seen + 1));
        } else {
            assert(pruned_columns(before.take(seen + 1)) =~= kept.push(before[seen]));
            assert(column_views(columns@) =~= kept.push(before[seen]) + before.skip(seen + 1));
            i += 1;
        }
        proof {
            seen = seen + 1;
        }
    }
    proof {
        assert(before.skip(seen).len() == 0);
        assert(before.take(seen) =~= before);
        assert(column_views(columns@) =~= pruned_columns(before));
    }
}

impl Default for Layout {
    /// The arrangement Umber ships with.
    fn default() -> (r: Layout)
        ensures
            r@ == LayoutView::shipped(),
            r@.sound(),
    {
        let mut left: Vec<Column> = Vec::new();
        left.push(Column::of(PanelKind::Tools));
        let mut panels: Vec<Docked> = Vec::new();
        panels.push(
            Docked { kind: PanelKind::Colour, weight: PanelKind::Colour.default_weight() },
        );
        panels.push(
            Docked { kind: PanelKind::Brushes, weight: PanelKind::Brushes.default_weight() },
        );
        panels.push(
            Docked { kind: PanelKind::Layers, weight: PanelKind::Layers.default_weight() },
        );
        let mut right: Vec<Column> = Vec::new();
        right.push(Column { panels, width: PanelKind::Colour.default_width() });
        let r = Layout {
            left,
            right,
            floating: Vec::new(),
            drag: None,
            edit_mode: false,
            dirty: false,
        };
        proof {
            let shipped = LayoutView::shipped();
            assert(r@.left =~= shipped.left);
            assert(r@.right[0].panels =~= shipped.right[0].panels);
            assert(r@.right =~= shipped.right);
            assert(r@ =~= shipped);
            lemma_shipped();
        }
        r
    }
}

impl Layout {
    // --- queries ------------------------------------------------------------

    pub fn columns(&self, side: Side) -> (r: &Vec<Column>)
        ensures
            column_views(r@) == self@.columns(side),
    {
        match side {
            Side::Left => &self.left,
            Side::Right => &self.right,
        }
    }

    /// The panels in one column, or nothing if there is no such column.
    pub fn docked(&self, side: Side, column: usize) -> (r: Vec<Docked>)
        ensures
            r@ == if column < self@.columns(side).len() {
                self@.columns(side)[column as int].panels
            } else {
                Seq::empty()
            },
    {
        let columns = self.columns(side);
        let mut out: Vec<Docked> = Vec::new();
        if column < columns.len() {
            let panels = &columns[column].panels;
            let mut i: usize = 0;
            while i < panels.len()
                invariant
                    0 <= i <= panels.len(),
                    out@ == panels@.take(i as int),
                decreases panels.len() - i,
            {
                out.push(panels[i]);
                i += 1;
                assert(panels@.take(i as int) =~= panels@.take(i - 1).push(panels@[i - 1]));
            }
            assert(panels@.take(panels@.len() as int) =~= panels@);
            assert(self@.columns(side)[column as int].panels == panels@);
        }
        out
    }

    pub fn floating(&self) -> (r: &Vec<Floating>)
        ensures
            r@ == self@.floating,
    {
        &self.floating
    }

    pub fn width(&self, side: Side, column: usize) -> (r: i64)
        ensures
            r == if column < self@.columns(side).len() {
                self@.columns(side)[column as int].width
            } else {
                metrics::PANEL
            },
    {
        let columns = self.columns(side);
        if column < columns.len() {
            assert(self@.columns(side)[column as int] == columns@[column as int]@);
            columns[column].width
        } else {
            metrics::PANEL
        }
    }

    pub fn drag(&self) -> (r: Option<Drag>)
        ensures
            r == self@.drag,
    {
        self.drag
    }

    pub fn is_dragging(&self) -> (r: bool)
        ensures
            r == self@.drag is Some,
    {
        self.drag.is_some()
    }

    pub fn edit_mode(&self) -> (r: bool)
        ensures
            r == self@.edit_mode,
    {
        self.edit_mode
    }

    pub fn set_edit_mode(&mut self, on: bool)
        requires
            old(self)@.sound(),
        ensures
            final(self)@ == old(self)@.in_mode(on),
            final(self)@.sound(),
    {
        if self.edit_mode == on {
            return ;
        }
        self.edit_mode = on;
        assert(self@ =~= LayoutView { edit_mode: on, ..old(self)@ });
        assert(self@.sound()) by {
            assert forall|k: PanelKind| #[trigger] self@.tally(k) <= 2 by {
                assert(old(self)@.tally(k) <= 2);
            }
        }
        if !on {
            self.cancel_drag();
        }
    }

    pub fn is_open(&self, kind: PanelKind) -> (r: bool)
        ensures
            r == self@.place_of(kind) is Some,
    {
        self.place_of(kind).is_some()
    }

    pub fn place_of(&self, kind: PanelKind) -> (r: Option<Origin>)
        ensures
            r == self@.place_of(kind),
    {
        if let Some((column, index)) = find_docked(&self.left, kind) {
            assert(self@.left[column as int] == self.left@[column as int]@);
            return Some(
                Origin::Dock {
                    side: Side::Left,
                    column,
                    index,
                    weight: self.left[column].panels[index].weight,
                    width: self.left[column].width,
                },
            );
        }
        if let Some((column, index)) = find_docked(&self.right, kind) {
            assert(self@.right[column as int] == self.right@[column as int]@);
            return Some(
                Origin::Dock {
                    side: Side::Right,
                    column,
                    index,
                    weight: self.right[column].panels[index].weight,
                    width: self.right[column].width,
                },
            );
        }
        match find_float(&self.floating, kind) {
            Some(i) => Some(Origin::Float(self.floating[i].rect)),
            None => None,
        }
    }

    /// True when the layout, rather than the canvas, owns the pointer: in edit
    /// mode, during a drag, and over a floating panel.
    pub fn blocks_canvas(&self, pointer: Pos2) -> (r: bool)
        ensures
            r == self@.blocks(pointer),
    {
        if self.edit_mode || self.drag.is_some() {
            return true;
        }
        let mut i: usize = 0;
        while i < self.floating.len()
            invariant
                0 <= i <= self.floating.len(),
                forall|j: int| 0 <= j < i ==> !(#[trigger] self.floating@[j]).rect.holds(pointer),
            decreases self.floating.len() - i,
        {
            if self.floating[i].rect.contains(pointer) {
                assert(self@.floating[i as int].rect.holds(pointer));
                return true;
            }
            i += 1;
        }
        false
    }

    // --- changes ------------------------------------------------------------

    /// Set how wide a column is, within its limits.
    pub fn set_width(&mut self, side: Side, column: usize, width: i64)
        requires
            old(self)@.sound(),
        ensures
            final(self)@ == old(self)@.widened(side, column as int, width as int),
            final(self)@.sound(),
    {
        proof {
            lemma_widened(self@, side, column as int, width as int);
        }
        let ghost before = self@;
        let count: usize = self.columns(side).len();
        if column >= count {
            return ;
        }
        assert(self@.columns(side)[column as int] == match side {
            Side::Left => self.left@[column as int]@,
            Side::Right => self.right@[column as int]@,
        });
        let floor: i64 = match side {
            Side::Left => self.left[column].min_width(),
            Side::Right => self.right[column].min_width(),
        };
        let next: i64 = round(clamp(width, floor, limits::SIDEBAR_MAX_WIDTH));
        match side {
            Side::Left => {
                if self.left[column].width != next {
                    self.left[column].width = next;
                    self.dirty = true;
                    assert(self@.left =~= before.widened(side, column as int, width as int).left);
                    assert(self@ =~= before.widened(side, column as int, width as int));
                }
            },
            Side::Right => {
                if self.right[column].width != next {
                    self.right[column].width = next;
                    self.dirty = true;
                    assert(self@.right =~= before.widened(
                        side,
                        column as int,
                        width as int,
                    ).right);
                    assert(self@ =~= before.widened(side, column as int, width as int));
                }
            },
        }
    }

    pub fn set_float_rect(&mut self, kind: PanelKind, rect: Rect)
        requires
            old(self)@.sound(),
            rect.bounded(),
        ensures
            final(self)@ == old(self)@.float_moved(kind, rect),
            final(self)@.sound(),
    {
        proof {
            lemma_float_moved(self@, kind, rect);
            crate::dock::count::lemma_float_index(self@.floating, kind, 0);
        }
        if let Some(i) = find_float(&self.floating, kind) {
            if self.floating[i].rect != rect {
                self.floating[i].rect = rect;
                self.dirty = true;
                assert(self@.floating =~= old(self)@.float_moved(kind, rect).floating);
                assert(self@ =~= old(self)@.float_moved(kind, rect));
            }
        }
    }

    /// Bring a floating panel to the front of the stack.
    pub fn raise(&mut self, kind: PanelKind)
        requires
            old(self)@.sound(),
        ensures
            final(self)@ == old(self)@.raised(kind),
            final(self)@.sound(),
    {
        proof {
            lemma_raised(self@, kind);
        }
        let Some(index) = find_float(&self.floating, kind) else {
            return ;
        };
        if index == self.floating.len() - 1 {
            return ;
        }
        let f = self.floating.remove(index);
        self.floating.push(f);
        self.dirty = true;
        assert(self@ =~= old(self)@.raised(kind));
    }

    /// Move the boundary between panels `index` and `index + 1` of one column
    /// by `delta`, given the heights they have, in fine steps.
    pub fn resize_split(
        &mut self,
        side: Side,
        column: usize,
        index: usize,
        delta: i64,
        heights: &[i128],
    )
        requires
            old(self)@.sound(),
            heights_in_reach(heights@),
        ensures
            final(self)@ == old(self)@.split_moved(
                side,
                column as int,
                index as int,
                delta as int,
                heights@,
            ),
            final(self)@.sound(),
    {
        let count: usize = self.columns(side).len();
        if column >= count {
            return ;
        }
        let ghost stack = self@.columns(side)[column as int].panels;
        let size: usize = match side {
            Side::Left => {
                assert(self@.left[column as int] == self.left@[column as int]@);
                self.left[column].panels.len()
            },
            Side::Right => {
                assert(self@.right[column as int] == self.right@[column as int]@);
                self.right[column].panels.len()
            },
        };
        if heights.len() != size || size == 0 || index >= size - 1 {
            return ;
        }
        let above: i128 = heights[index];
        let below: i128 = heights[index + 1];
        let minimum: i128 = limits::PANEL_MIN_HEIGHT as i128 * FINE;
        let asked: i128 = delta as i128 * FINE;
        let raised: i128 = if asked < minimum - above {
            minimum - above
        } else {
            asked
        };
        let moved: i128 = if raised > below - minimum {
            below - minimum
        } else {
            raised
        };
        assert(moved == split_delta(heights@, index as int, delta as int));
        let mut next: Vec<i128> = Vec::new();
        let mut i: usize = 0;
        while i < heights.len()
            invariant
                0 <= i <= heights@.len(),
                next@.len() == i,
                index + 1 < heights@.len(),
                heights_in_reach(heights@),
                above == heights@[index as int],
                below == heights@[index + 1],
                fine(-9 * REACH) <= moved <= fine(9 * REACH),
                forall|j: int|
                    0 <= j < i ==> #[trigger] next@[j] == heights@.update(
                        index as int,
                        (above + moved) as i128,
                    ).update(index + 1, (below - moved) as i128)[j],
            decreases heights@.len() - i,
        {
            assert(fine(-4 * REACH) <= heights@[i as int] <= fine(4 * REACH));
            if i == index {
                next.push(heights[i] + moved);
            } else if i == index + 1 {
                next.push(heights[i] - moved);
            } else {
                next.push(heights[i]);
            }
            i += 1;
        }
        assert(next@ =~= split_heights(heights@, index as int, delta as int));
        assert(forall|j: int|
            0 <= j < next@.len() ==> fine(-16 * REACH) <= #[trigger] next@[j] <= fine(16 * REACH));
        self.set_weights_from_heights(side, column, &next);
    }

    /// Make what each panel has beyond the minimum its weight, so that sharing
    /// the same room out again gives the same heights.
    fn set_weights_from_heights(&mut self, side: Side, column: usize, heights: &Vec<i128>)
        requires
            old(self)@.sound(),
            column < old(self)@.columns(side).len(),
            heights@.len() == old(self)@.columns(side)[column as int].panels.len(),
            forall|j: int|
                0 <= j < heights@.len() ==> fine(-16 * REACH) <= #[trigger] heights@[j] <= fine(
                    16 * REACH,
                ),
        ensures
            final(self)@ == old(self)@.reweighted(side, column as int, heights@),
            final(self)@.sound(),
    {
        let ghost before = self@;
        proof {
            lemma_stack_small(before);
        }
        let mut flexible: Vec<i64> = Vec::new();
        let mut total: i128 = 0;
        let mut i: usize = 0;
        while i < heights.len()
            invariant
                0 <= i <= heights@.len() <= 14,
                flexible@.len() == i,
                forall|j: int|
                    0 <= j < heights@.len() ==> fine(-16 * REACH) <= #[trigger] heights@[j] <= fine(
                        16 * REACH,
                    ),
                forall|j: int| 0 <= j < i ==> #[trigger] flexible@[j] == spare(heights@)[j],
                total == weight_sum(spare(heights@), i as int),
                0 <= total <= i * limits::WEIGHT_LIMIT,
            decreases heights@.len() - i,
        {
            let h: i128 = heights[i];
            assert(fine(-16 * REACH) <= h <= fine(16 * REACH));
            let w: i64 = height_weight(h);
            assert(w == spare(heights@)[i as int]);
            total += w as i128;
            flexible.push(w);
            i += 1;
        }
        assert(flexible@ =~= spare(heights@));
        let mut weights: Vec<i64> = Vec::new();
        let mut n: usize = 0;
        while n < flexible.len()
            invariant
                0 <= n <= flexible@.len(),
                weights@.len() == n,
                forall|j: int|
                    0 <= j < n ==> #[trigger] weights@[j] == if total > 1 {
                        flexible@[j]
                    } else {
                        limits::WEIGHT_ONE
                    },
            decreases flexible@.len() - n,
        {
            if total > 1 {
                weights.push(flexible[n]);
            } else {
                weights.push(limits::WEIGHT_ONE);
            }
            n += 1;
        }
        assert(weights@ =~= spare_weights(heights@));
        match side {
            Side::Left => {
                assert(before.left[column as int] == self.left@[column as int]@);
                set_weights(&mut self.left, column, &weights);
            },
            Side::Right => {
                assert(before.right[column as int] == self.right@[column as int]@);
                set_weights(&mut self.right, column, &weights);
            },
        }
        self.dirty = true;
        assert(self@ =~= before.reweighted(side, column as int, heights@));
        proof {
            lemma_reweighted(before, side, column as int, heights@);
        }
    }

    /// Pull floating panels back so their headers stay grabbable.
    pub fn clamp_floating(&mut self, workspace: Rect)
        requires
            old(self)@.sound(),
            workspace.in_reach(),
            old(self)@.floating.len() > 0 ==> workspace.wide() >= 2 * POINT,
        ensures
            final(self)@ == old(self)@.pulled_back(workspace),
            final(self)@.sound(),
    {
        let ghost before = self@;
        let mut i: usize = 0;
        while i < self.floating.len()
            invariant
                0 <= i <= self.floating@.len(),
                self.floating@.len() == before.floating.len(),
                before.sound(),
                workspace.in_reach(),
                before.floating.len() > 0 ==> workspace.wide() >= 2 * POINT,
                self@ == (LayoutView { floating: self.floating@, ..before }),
                forall|j: int|
                    0 <= j < i ==> #[trigger] self.floating@[j] == (Floating {
                        kind: before.floating[j].kind,
                        rect: place_in(before.floating[j].rect, workspace),
                    }),
                forall|j: int|
                    i <= j < self.floating@.len() ==> #[trigger] self.floating@[j]
                        == before.floating[j],
            decreases self.floating@.len() - i,
        {
            let rect = self.floating[i].rect;
            assert(before.floating[i as int].rect.bounded());
            let wide: i64 = least(
                clamp(rect.width(), limits::FLOAT_MIN_WIDTH, limits::FLOAT_MAX_WIDTH),
                greatest(workspace.width(), limits::FLOAT_MIN_WIDTH),
            );
            let tall: i64 = least(
                clamp(rect.height(), limits::FLOAT_MIN_HEIGHT, limits::FLOAT_MAX_HEIGHT),
                greatest(workspace.height(), limits::FLOAT_MIN_HEIGHT),
            );
            let keep: i64 = least(limits::FLOAT_KEEP_VISIBLE, wide);
            let x: i64 = clamp(
                rect.min.x,
                workspace.min.x - (wide - keep),
                workspace.max.x - keep,
            );
            let y: i64 = clamp(
                rect.min.y,
                workspace.min.y,
                greatest(workspace.max.y - metrics::PANEL_HEADER, workspace.min.y),
            );
            let next = Rect::from_min_size(Pos2 { x, y }, Vec2 { x: wide, y: tall });
            assert(next == place_in(rect, workspace));
            self.floating[i].rect = next;
            i += 1;
        }
        proof {
            assert(self@ =~= before.pulled_back(workspace));
            lemma_pulled_back(before, workspace);
        }
    }

    /// Remove a panel from wherever it is, reporting where that was. May leave
    /// an empty column behind.
    fn take(&mut self, kind: PanelKind) -> (r: Option<Origin>)
        ensures
            r == old(self)@.place_of(kind),
            final(self)@ == old(self)@.without(kind),
    {
        let place = self.place_of(kind);
        match place {
            Some(Origin::Dock { side, column, index, .. }) => {
                proof {
                    crate::dock::count::lemma_column_index(self@.left, kind, 0);
                    crate::dock::count::lemma_column_index(self@.right, kind, 0);
                }
                match side {
                    Side::Left => {
                        let found = find_docked(&self.left, kind);
                        assert(found == Some((column, index)));
                        assert(self@.left[column as int] == self.left@[column as int]@);
                        remove_panel(&mut self.left, column, index);
                    },
                    Side::Right => {
                        let found = find_docked(&self.right, kind);
                        assert(found == Some((column, index)));
                        assert(self@.right[column as int] == self.right@[column as int]@);
                        remove_panel(&mut self.right, column, index);
                    },
                }
            },
            Some(Origin::Float(_)) => {
                if let Some(i) = find_float(&self.floating, kind) {
                    self.floating.remove(i);
                }
            },
            _ => {},
        }
        assert(self@ =~= old(self)@.without(kind));
        place
    }

    pub(crate) fn prune(&mut self)
        ensures
            final(self)@ == old(self)@.pruned(),
    {
        prune_columns(&mut self.left);
        prune_columns(&mut self.right);
        assert(self@ =~= old(self)@.pruned());
    }

    /// Put a panel into the stack of an existing column.
    pub(crate) fn stack(&mut self, side: Side, column: usize, index: usize, docked: Docked)
        requires
            column < old(self)@.columns(side).len(),
        ensures
            ({
                let columns = old(self)@.columns(side);
                let panels = columns[column as int].panels;
                let at = crate::geom::min_of(index as int, panels.len() as int);
                final(self)@ == old(self)@.with_columns(
                    side,
                    columns.update(column as int, columns[column as int].stacked(at, docked)),
                )
            }),
    {
        assert(self@.columns(side)[column as int] == match side {
            Side::Left => self.left@[column as int]@,
            Side::Right => self.right@[column as int]@,
        });
        match side {
            Side::Left => {
                let size: usize = self.left[column].panels.len();
                let at: usize = if index < size {
                    index
                } else {
                    size
                };
                insert_panel(&mut self.left, column, at, docked);
            },
            Side::Right => {
                let size: usize = self.right[column].panels.len();
                let at: usize = if index < size {
                    index
                } else {
                    size
                };
                insert_panel(&mut self.right, column, at, docked);
            },
        }
    }

    /// Put a panel at the bottom of an existing column and leave the column's
    /// width to be settled later.
    pub(crate) fn append(&mut self, side: Side, column: usize, docked: Docked)
        requires
            column < old(self)@.columns(side).len(),
        ensures
            ({
                let columns = old(self)@.columns(side);
                final(self)@ == old(self)@.with_columns(
                    side,
                    with_panels(
                        columns,
                        column as int,
                        columns[column as int].panels.push(docked),
                    ),
                )
            }),
    {
        assert(self@.columns(side)[column as int] == match side {
            Side::Left => self.left@[column as int]@,
            Side::Right => self.right@[column as int]@,
        });
        match side {
            Side::Left => append_panel(&mut self.left, column, docked),
            Side::Right => append_panel(&mut self.right, column, docked),
        }
    }

    /// Insert a column at `at`, or innermost when there are not that many.
    pub(crate) fn add_column(&mut self, side: Side, at: usize, column: Column)
        ensures
            final(self)@ == old(self)@.with_columns(
                side,
                old(self)@.columns(side).insert(
                    crate::geom::min_of(at as int, old(self)@.columns(side).len() as int),
                    column@,
                ),
            ),
    {
        match side {
            Side::Left => {
                let count: usize = self.left.len();
                let at: usize = if at < count {
                    at
                } else {
                    count
                };
                insert_column(&mut self.left, at, column);
            },
            Side::Right => {
                let count: usize = self.right.len();
                let at: usize = if at < count {
                    at
                } else {
                    count
                };
                insert_column(&mut self.right, at, column);
            },
        }
    }

    fn put(&mut self, kind: PanelKind, origin: Origin)
        ensures
            final(self)@ == old(self)@.with_put(kind, origin),
    {
        let ghost before = self@;
        match origin {
            Origin::Dock { side, column, index, weight, width } => {
                let docked = Docked { kind, weight };
                let count: usize = self.columns(side).len();
                if column < count {
                    self.stack(side, column, index, docked);
                } else {
                    let mut panels: Vec<Docked> = Vec::new();
                    panels.push(docked);
                    let fresh = Column { panels, width: greatest(width, kind.min_width()) };
                    self.add_column(side, count, fresh);
                    proof {
                        assert(fresh@ =~= ColumnView::alone(docked, width as int));
                        let columns = before.columns(side);
                        assert(columns.insert(columns.len() as int, fresh@) =~= columns.push(
                            fresh@,
                        ));
                    }
                }
            },
            Origin::Float(rect) => {
                self.floating.push(Floating { kind, rect });
                assert(self@ =~= before.with_put(kind, origin));
            },
            Origin::Closed => {},
        }
    }

    /// Take a panel out of the layout.
    pub fn close(&mut self, kind: PanelKind)
        requires
            old(self)@.sound(),
        ensures
            final(self)@ == old(self)@.closed(kind),
            final(self)@.sound(),
    {
        proof {
            lemma_closed(self@, kind);
        }
        self.take(kind);
        self.prune();
        self.dirty = true;
        assert(self@ =~= old(self)@.closed(kind));
    }

    /// Put a closed panel back, at the bottom of whichever side has room.
    pub fn open(&mut self, kind: PanelKind)
        requires
            old(self)@.sound(),
        ensures
            final(self)@ == old(self)@.opened(kind),
            final(self)@.sound(),
    {
        proof {
            lemma_opened(self@, kind);
        }
        if self.is_open(kind) {
            return ;
        }
        let ghost before = self@;
        let side = if self.right.len() == 0 && self.left.len() > 0 {
            Side::Left
        } else {
            Side::Right
        };
        let count: usize = self.columns(side).len();
        if count > 0 {
            let docked = Docked { kind, weight: kind.default_weight() };
            self.stack(side, count - 1, usize::MAX, docked);
            proof {
                let columns = before.columns(side);
                let p = columns[columns.len() - 1].panels;
                assert(p.len() <= usize::MAX) by {
                    crate::dock::count::lemma_stack_small(before);
                }
            }
        } else {
            self.add_column(side, 0, Column::of(kind));
            proof {
                let columns = before.columns(side);
                assert(columns.insert(0, ColumnView::of(kind)) =~= seq![ColumnView::of(kind)]);
            }
        }
        self.dirty = true;
        assert(self@ =~= before.opened(kind));
        let left: usize = self.left.len();
        let right: usize = self.right.len();
        assert(self@.left.len() == left && self@.right.len() == right);
    }

    /// Back to the arrangement the app ships with. Leaves edit mode alone.
    pub fn reset(&mut self)
        ensures
            final(self)@ == old(self)@.reset(),
            final(self)@.sound(),
    {
        let edit_mode = self.edit_mode;
        *self = Layout::default();
        self.edit_mode = edit_mode;
        self.dirty = true;
        assert(self@ =~= old(self)@.reset());
        assert(self@.sound()) by {
            lemma_shipped();
            assert forall|k: PanelKind| #[trigger] self@.tally(k) <= 2 by {
                assert(LayoutView::shipped().tally(k) <= 2);
            }
        }
    }

    // --- dragging -----------------------------------------------------------

    /// Lift a panel out of the layout and start following the pointer. Panels
    /// are locked outside edit mode.
    pub fn begin_drag(&mut self, kind: PanelKind, pointer: Pos2, panel_rect: Rect)
        requires
            old(self)@.sound(),
            pointer.in_reach(),
            panel_rect.in_reach(),
        ensures
            final(self)@ == old(self)@.lifted(kind, pointer, panel_rect),
            final(self)@.sound(),
    {
        proof {
            lemma_lifted(self@, kind, pointer, panel_rect);
            crate::dock::count::lemma_stack_small(self@);
            crate::dock::keep::lemma_without(self@, kind);
        }
        if self.drag.is_some() || !self.edit_mode {
            return ;
        }
        let ghost before = self@;
        let Some(origin) = self.take(kind) else {
            assert(before.without(kind) == before);
            return ;
        };
        let float_size = match origin {
            Origin::Float(rect) => Vec2 { x: rect.width(), y: rect.height() },
            _ => Vec2 {
                x: clamp(panel_rect.width(), limits::FLOAT_MIN_WIDTH, limits::FLOAT_MAX_WIDTH),
                y: clamp(panel_rect.height(), limits::FLOAT_MIN_HEIGHT, limits::FLOAT_MAX_HEIGHT),
            },
        };
        self.drag = Some(
            Drag {
                kind,
                grab: Vec2 {
                    x: least(pointer.x - panel_rect.min.x, float_size.x - 240_000),
                    y: least(pointer.y - panel_rect.min.y, float_size.y),
                },
                float_size,
                pointer,
                sticky: false,
                armed: false,
                origin,
            },
        );
        self.dirty = true;
        assert(self@ =~= before.lifted(kind, pointer, panel_rect));
    }

    /// Add a module by picking it up: it enters the layout already in the
    /// pointer's hand, and the drop chooses where it lands. False when one
    /// already is.
    pub fn add_dragging(&mut self, kind: PanelKind, pointer: Pos2) -> (r: bool)
        requires
            old(self)@.sound(),
            pointer.in_reach(),
        ensures
            final(self)@ == old(self)@.picked_up(kind, pointer),
            r == old(self)@.drag is None,
            final(self)@.sound(),
    {
        proof {
            lemma_picked_up(self@, kind, pointer);
            crate::dock::count::lemma_stack_small(self@);
            crate::dock::keep::lemma_without(self@, kind);
        }
        if self.drag.is_some() {
            return false;
        }
        let ghost before = self@;
        let origin = match self.take(kind) {
            Some(origin) => origin,
            None => Origin::Closed,
        };
        let float_size = match origin {
            Origin::Float(rect) => Vec2 { x: rect.width(), y: rect.height() },
            _ => Vec2 {
                x: clamp(metrics::PANEL, limits::FLOAT_MIN_WIDTH, limits::FLOAT_MAX_WIDTH),
                y: clamp(2_600_000, limits::FLOAT_MIN_HEIGHT, limits::FLOAT_MAX_HEIGHT),
            },
        };
        self.edit_mode = true;
        self.drag = Some(
            Drag {
                kind,
                grab: Vec2 { x: half(float_size.x), y: half(metrics::PANEL_HEADER) },
                float_size,
                pointer,
                sticky: true,
                armed: false,
                origin,
            },
        );
        self.dirty = true;
        assert(self@ =~= before.picked_up(kind, pointer));
        true
    }

    /// Whether the drag in progress should be dropped, given this frame's
    /// pointer state.
    pub fn drag_should_drop(&mut self, any_down: bool, any_pressed: bool) -> (r: bool)
        requires
            old(self)@.sound(),
        ensures
            final(self)@ == old(self)@.after_frame(any_down, any_pressed),
            r == final(self)@.drops(any_down, any_pressed),
            final(self)@.sound(),
    {
        let ghost before = self@;
        let Some(drag) = self.drag else {
            return false;
        };
        if !drag.sticky {
            return !any_down;
        }
        let armed = drag.armed || (!any_down && !any_pressed);
        if !any_down && !any_pressed {
            self.drag = Some(
                Drag {
                    kind: drag.kind,
                    grab: drag.grab,
                    float_size: drag.float_size,
                    pointer: drag.pointer,
                    sticky: drag.sticky,
                    armed: true,
                    origin: drag.origin,
                },
            );
        }
        assert(self@ =~= before.after_frame(any_down, any_pressed));
        assert(self@.sound()) by {
            assert forall|k: PanelKind| #[trigger] self@.tally(k) <= 2 by {
                assert(before.tally(k) <= 2);
                assert(self@.placed(k) == before.placed(k));
            }
        }
        armed && any_pressed
    }

    pub fn drag_to(&mut self, pointer: Pos2)
        requires
            old(self)@.sound(),
            pointer.in_reach(),
        ensures
            final(self)@ == old(self)@.dragged_to(pointer),
            final(self)@.sound(),
    {
        let ghost before = self@;
        if let Some(drag) = self.drag {
            self.drag = Some(
                Drag {
                    kind: drag.kind,
                    grab: drag.grab,
                    float_size: drag.float_size,
                    pointer,
                    sticky: drag.sticky,
                    armed: drag.armed,
                    origin: drag.origin,
                },
            );
            assert(self@ =~= before.dragged_to(pointer));
            assert(self@.sound()) by {
                assert forall|k: PanelKind| #[trigger] self@.tally(k) <= 2 by {
                    assert(before.tally(k) <= 2);
                    assert(self@.placed(k) == before.placed(k));
                }
            }
        }
    }

    /// Release the dragged panel onto `target`.
    pub fn end_drag(&mut self, target: DropTarget)
        requires
            old(self)@.sound(),
        ensures
            final(self)@ == old(self)@.dropped(target),
            final(self)@.sound(),
    {
        proof {
            lemma_dropped(self@, target);
        }
        let ghost before = self@;
        let Some(drag) = self.drag.take() else {
            assert(self@ =~= before);
            return ;
        };
        let ghost base = self@;
        assert(base =~= LayoutView { drag: None, ..before });
        let weight: i64 = match drag.origin {
            Origin::Dock { weight, .. } => weight,
            _ => drag.kind.default_weight(),
        };
        let docked = Docked { kind: drag.kind, weight };
        match target {
            DropTarget::Dock { side, column, index } => {
                let count: usize = self.columns(side).len();
                if column < count {
                    self.stack(side, column, index, docked);
                } else {
                    self.add_column(side, count, Column::of(drag.kind));
                    proof {
                        let columns = before.columns(side);
                        let fresh = ColumnView::of(drag.kind);
                        assert(columns.insert(columns.len() as int, fresh) =~= columns.push(
                            fresh,
                        ));
                    }
                }
            },
            DropTarget::NewColumn { side, column } => {
                let wanted: i64 = match drag.origin {
                    Origin::Dock { width, .. } => width,
                    _ => drag.kind.default_width(),
                };
                let width: i64 = clamp(
                    wanted,
                    drag.kind.min_width(),
                    limits::SIDEBAR_MAX_WIDTH,
                );
                let mut panels: Vec<Docked> = Vec::new();
                panels.push(docked);
                let fresh = Column { panels, width };
                assert(fresh@ =~= ColumnView { panels: seq![docked], width });
                self.add_column(side, column, fresh);
            },
            DropTarget::Float => {
                self.floating.push(Floating { kind: drag.kind, rect: drag.float_rect() });
            },
        }
        assert(self@ =~= before.landed(drag, target));
        self.prune();
        self.dirty = true;
        assert(self@ =~= before.dropped(target));
        let left: usize = self.left.len();
        let right: usize = self.right.len();
        assert(self@.left.len() == left && self@.right.len() == right);
    }

    /// Abandon the drag and put the panel back where it came from.
    pub fn cancel_drag(&mut self)
        requires
            old(self)@.sound(),
        ensures
            final(self)@ == old(self)@.cancelled(),
            final(self)@.sound(),
    {
        proof {
            lemma_cancelled(self@);
        }
        let ghost before = self@;
        let Some(drag) = self.drag.take() else {
            assert(self@ =~= before);
            return ;
        };
        assert(self@ =~= LayoutView { drag: None, ..before });
        self.put(drag.kind, drag.origin);
        self.prune();
        self.dirty = true;
        assert(self@ =~= before.cancelled());
        let left: usize = self.left.len();
        let right: usize = self.right.len();
        assert(self@.left.len() == left && self@.right.len() == right);
    }
}

} // verus!
