//! What a layout is, and what each operation on one does to it.

use crate::dock::heights::{fine, weight_of_height, weight_sum};
use crate::dock::kind::{PanelKind, Side};
use crate::dock::limits;
use crate::geom::{clamp_of, half_of, max_of, min_of, round_of, Pos2, Rect, Vec2, POINT, REACH};
use crate::metrics;
use vstd::prelude::*;

verus! {

/// A panel in a column's stack. `weight` is its share of the space left over
/// once every panel in the column has its minimum height, in millionths.
#[derive(Clone, Copy, Debug, PartialEq, Eq, Structural)]
pub struct Docked {
    pub kind: PanelKind,
    pub weight: i64,
}

/// One column of docked panels: a stack, and how wide it is. Columns on a side
/// are ordered from the window edge inwards.
#[derive(Clone, Debug, PartialEq, Eq)]
pub struct Column {
    pub panels: Vec<Docked>,
    pub width: i64,
}

/// A panel hovering over the canvas, positioned in absolute window points.
#[derive(Clone, Copy, Debug, PartialEq, Eq, Structural)]
pub struct Floating {
    pub kind: PanelKind,
    pub rect: Rect,
}

/// Where a panel was before a drag started, so that abandoning the drag can put
/// it back.
#[derive(Clone, Copy, Debug, PartialEq, Eq, Structural)]
pub enum Origin {
    Dock {
        side: Side,
        column: usize,
        index: usize,
        weight: i64,
        /// The column's width, so that a panel dropped as a new column keeps
        /// the width it had.
        width: i64,
    },
    Float(Rect),
    /// It was not in the layout at all: the drag is an add.
    Closed,
}

/// A drag in progress. The panel itself has already been removed from the
/// layout.
#[derive(Clone, Copy, Debug, PartialEq, Eq, Structural)]
pub struct Drag {
    pub kind: PanelKind,
    /// Offset from the panel's top-left to the pointer when it was grabbed.
    pub grab: Vec2,
    /// Size it will take if dropped as a float.
    pub float_size: Vec2,
    /// Latest pointer position, in window points.
    pub pointer: Pos2,
    /// Started by a click rather than by a press, so it ends on the next press
    /// instead of on a release.
    pub sticky: bool,
    /// Sticky drags only: whether the pointer has been seen up since the drag
    /// began.
    pub armed: bool,
    pub origin: Origin,
}

/// Where a release would put the dragged panel.
#[derive(Clone, Copy, Debug, PartialEq, Eq, Structural)]
pub enum DropTarget {
    /// Into an existing column's stack.
    Dock { side: Side, column: usize, index: usize },
    /// As a column of its own, inserted at `column`.
    NewColumn { side: Side, column: usize },
    Float,
}

/// A column's stack and width.
#[verifier::ext_equal]
pub struct ColumnView {
    pub panels: Seq<Docked>,
    pub width: i64,
}

impl View for Column {
    type V = ColumnView;

    open spec fn view(&self) -> ColumnView {
        ColumnView { panels: self.panels@, width: self.width }
    }
}

/// The columns of one side, as stacks and widths.
pub open spec fn column_views(columns: Seq<Column>) -> Seq<ColumnView> {
    columns.map_values(|c: Column| c@)
}

/// The widest minimum among the first `n` panels.
pub open spec fn widest_minimum(panels: Seq<Docked>, n: int) -> int
    decreases n,
{
    if n <= 1 {
        panels[0].kind.least_width()
    } else {
        max_of(widest_minimum(panels, n - 1), panels[n - 1].kind.least_width())
    }
}

impl ColumnView {
    /// The widest minimum among the modules in it; the ordinary floor for a
    /// column a drag has emptied.
    pub open spec fn least_width(self) -> int {
        if self.panels.len() == 0 {
            limits::SIDEBAR_MIN_WIDTH as int
        } else {
            widest_minimum(self.panels, self.panels.len() as int)
        }
    }

    pub open spec fn of(kind: PanelKind) -> ColumnView {
        ColumnView {
            panels: seq![Docked { kind, weight: kind.starting_weight() as i64 }],
            width: kind.starting_width() as i64,
        }
    }

    /// A column of one panel, at a width or at the panel's minimum.
    pub open spec fn alone(docked: Docked, width: int) -> ColumnView {
        ColumnView {
            panels: seq![docked],
            width: max_of(width, docked.kind.least_width()) as i64,
        }
    }

    /// With one more panel in the stack, and widened where the panel asks for
    /// more than the column had.
    pub open spec fn stacked(self, at: int, docked: Docked) -> ColumnView {
        let panels = self.panels.insert(at, docked);
        ColumnView {
            panels,
            width: max_of(
                self.width as int,
                widest_minimum(panels, panels.len() as int),
            ) as i64,
        }
    }

    /// A column a layout may hold: weights and width in their ranges, a width of
    /// whole points, and none of its modules squeezed below its own minimum.
    pub open spec fn sound(self) -> bool {
        &&& limits_of_width(self.width as int)
        &&& self.panels.len() > 0 ==> self.least_width() <= self.width
        &&& forall|i: int|
            0 <= i < self.panels.len() ==> 0 <= (#[trigger] self.panels[i]).weight
                <= limits::WEIGHT_LIMIT
    }
}

/// A width a column may have.
pub open spec fn limits_of_width(width: int) -> bool {
    metrics::TOOL_RAIL <= width <= limits::SIDEBAR_MAX_WIDTH && width % POINT as int == 0
}

pub proof fn lemma_widest_minimum(panels: Seq<Docked>, n: int)
    requires
        panels.len() > 0,
    ensures
        metrics::TOOL_RAIL <= widest_minimum(panels, n) <= limits::SIDEBAR_MIN_WIDTH,
        widest_minimum(panels, n) % POINT as int == 0,
    decreases n,
{
    if n > 1 {
        lemma_widest_minimum(panels, n - 1);
    }
}

/// The widest minimum is the minimum of one of them, and no smaller than any.
pub proof fn lemma_widest_found(panels: Seq<Docked>, n: int) -> (j: int)
    requires
        1 <= n <= panels.len(),
    ensures
        0 <= j < n,
        widest_minimum(panels, n) == panels[j].kind.least_width(),
        forall|i: int|
            0 <= i < n ==> (#[trigger] panels[i]).kind.least_width() <= widest_minimum(panels, n),
    decreases n,
{
    if n == 1 {
        0
    } else {
        let j = lemma_widest_found(panels, n - 1);
        if panels[n - 1].kind.least_width() > panels[j].kind.least_width() {
            n - 1
        } else {
            j
        }
    }
}

/// Modules that all stand in another stack ask for no more than it does.
pub proof fn lemma_widest_within(panels: Seq<Docked>, others: Seq<Docked>)
    requires
        panels.len() > 0,
        forall|i: int|
            0 <= i < panels.len() ==> exists|j: int|
                0 <= j < others.len() && others[j].kind == (#[trigger] panels[i]).kind,
    ensures
        widest_minimum(panels, panels.len() as int) <= widest_minimum(others, others.len() as int),
{
    let i = lemma_widest_found(panels, panels.len() as int);
    let j = choose|j: int| 0 <= j < others.len() && others[j].kind == panels[i].kind;
    let _ = lemma_widest_found(others, others.len() as int);
    assert(others[j].kind.least_width() <= widest_minimum(others, others.len() as int));
}

// --- counting ---------------------------------------------------------------

/// How often a module stands in a stack.
pub open spec fn panel_tally(panels: Seq<Docked>, k: PanelKind) -> int
    decreases panels.len(),
{
    if panels.len() == 0 {
        0
    } else {
        panel_tally(panels.drop_last(), k) + if panels.last().kind == k {
            1int
        } else {
            0
        }
    }
}

/// How often a module stands in the columns of a side.
pub open spec fn column_tally(columns: Seq<ColumnView>, k: PanelKind) -> int
    decreases columns.len(),
{
    if columns.len() == 0 {
        0
    } else {
        column_tally(columns.drop_last(), k) + panel_tally(columns.last().panels, k)
    }
}

/// How often a module floats.
pub open spec fn float_tally(floating: Seq<Floating>, k: PanelKind) -> int
    decreases floating.len(),
{
    if floating.len() == 0 {
        0
    } else {
        float_tally(floating.drop_last(), k) + if floating.last().kind == k {
            1int
        } else {
            0
        }
    }
}

// --- finding ----------------------------------------------------------------

/// The first position at or after `from` where a stack holds the module.
pub open spec fn panel_index(panels: Seq<Docked>, k: PanelKind, from: int) -> int
    decreases panels.len() - from,
{
    if 0 <= from < panels.len() && panels[from].kind != k {
        panel_index(panels, k, from + 1)
    } else {
        from
    }
}

/// The first column at or after `from` that holds the module.
pub open spec fn column_index(columns: Seq<ColumnView>, k: PanelKind, from: int) -> int
    decreases columns.len() - from,
{
    if 0 <= from < columns.len() && panel_index(columns[from].panels, k, 0)
        >= columns[from].panels.len() {
        column_index(columns, k, from + 1)
    } else {
        from
    }
}

/// The first floating panel at or after `from` that is the module.
pub open spec fn float_index(floating: Seq<Floating>, k: PanelKind, from: int) -> int
    decreases floating.len() - from,
{
    if 0 <= from < floating.len() && floating[from].kind != k {
        float_index(floating, k, from + 1)
    } else {
        from
    }
}

// --- the layout -------------------------------------------------------------

/// Everything a layout knows.
#[verifier::ext_equal]
pub struct LayoutView {
    /// Columns at the left, from the window edge inwards.
    pub left: Seq<ColumnView>,
    /// Columns at the right, from the window edge inwards.
    pub right: Seq<ColumnView>,
    /// Draw order: the last one is on top.
    pub floating: Seq<Floating>,
    pub drag: Option<Drag>,
    /// Panels are only draggable while it is on, and the canvas is paused for
    /// as long as it is.
    pub edit_mode: bool,
    /// Changed since it was last written out.
    pub dirty: bool,
}

pub open spec fn origin_sound(origin: Origin) -> bool {
    match origin {
        Origin::Dock { weight, width, .. } => 0 <= weight <= limits::WEIGHT_LIMIT
            && limits_of_width(width as int),
        Origin::Float(rect) => rect.bounded(),
        Origin::Closed => true,
    }
}

pub open spec fn drag_sound(drag: Drag) -> bool {
    &&& drag.pointer.in_reach()
    &&& -6 * REACH <= drag.grab.x <= 6 * REACH
    &&& -6 * REACH <= drag.grab.y <= 6 * REACH
    &&& -4 * REACH <= drag.float_size.x <= 4 * REACH
    &&& -4 * REACH <= drag.float_size.y <= 4 * REACH
    &&& origin_sound(drag.origin)
}

impl Drag {
    /// The rectangle the panel would occupy if released here as a float.
    pub open spec fn float_place(self) -> Rect {
        Rect::sized(
            Pos2 {
                x: (self.pointer.x - self.grab.x) as i64,
                y: (self.pointer.y - self.grab.y) as i64,
            },
            self.float_size,
        )
    }
}

pub open spec fn no_blank(columns: Seq<ColumnView>) -> bool {
    forall|i: int| 0 <= i < columns.len() ==> (#[trigger] columns[i]).panels.len() > 0
}

pub open spec fn columns_sound(columns: Seq<ColumnView>) -> bool {
    forall|i: int| 0 <= i < columns.len() ==> (#[trigger] columns[i]).sound()
}

pub open spec fn floats_sound(floating: Seq<Floating>) -> bool {
    forall|i: int| 0 <= i < floating.len() ==> (#[trigger] floating[i]).rect.bounded()
}

pub open spec fn with_panels(columns: Seq<ColumnView>, c: int, panels: Seq<Docked>) -> Seq<
    ColumnView,
> {
    columns.update(c, ColumnView { panels, width: columns[c].width })
}

pub open spec fn pruned_columns(columns: Seq<ColumnView>) -> Seq<ColumnView>
    decreases columns.len(),
{
    if columns.len() == 0 {
        columns
    } else {
        let rest = pruned_columns(columns.drop_last());
        if columns.last().panels.len() == 0 {
            rest
        } else {
            rest.push(columns.last())
        }
    }
}

// --- splitting a column -----------------------------------------------------

pub open spec fn heights_in_reach(heights: Seq<i128>) -> bool {
    forall|i: int|
        0 <= i < heights.len() ==> fine(-4 * REACH) <= #[trigger] heights[i] <= fine(4 * REACH)
}

/// How far a boundary really moves: not past either panel's minimum.
pub open spec fn split_delta(heights: Seq<i128>, index: int, delta: int) -> int {
    min_of(
        max_of(fine(delta), fine(limits::PANEL_MIN_HEIGHT as int) - heights[index]),
        heights[index + 1] - fine(limits::PANEL_MIN_HEIGHT as int),
    )
}

/// The heights once the boundary below panel `index` has moved.
pub open spec fn split_heights(heights: Seq<i128>, index: int, delta: int) -> Seq<i128> {
    let d = split_delta(heights, index, delta);
    heights.update(index, (heights[index] + d) as i128).update(
        index + 1,
        (heights[index + 1] - d) as i128,
    )
}

/// What each height has beyond the minimum, as a weight.
pub open spec fn spare(heights: Seq<i128>) -> Seq<i64> {
    heights.map_values(|h: i128| weight_of_height(h as int) as i64)
}

/// The weights that stand for these heights: what each has to spare, or the
/// same for all when there is next to nothing to spare.
pub open spec fn spare_weights(heights: Seq<i128>) -> Seq<i64> {
    if weight_sum(spare(heights), heights.len() as int) > 1 {
        spare(heights)
    } else {
        heights.map_values(|h: i128| limits::WEIGHT_ONE)
    }
}

/// A stack with these weights.
pub open spec fn weighted(panels: Seq<Docked>, weights: Seq<i64>) -> Seq<Docked> {
    Seq::new(panels.len(), |i: int| Docked { kind: panels[i].kind, weight: weights[i] })
}

// --- keeping floats in sight --------------------------------------------------

/// Where a floating panel goes so that its header stays in the workspace: its
/// size held to its limits and to the workspace, a strip of it kept inside at
/// either side, its top never above the workspace nor its header below it.
pub open spec fn place_in(rect: Rect, workspace: Rect) -> Rect {
    let wide = min_of(
        clamp_of(
            rect.wide(),
            limits::FLOAT_MIN_WIDTH as int,
            limits::FLOAT_MAX_WIDTH as int,
        ),
        max_of(workspace.wide(), limits::FLOAT_MIN_WIDTH as int),
    );
    let tall = min_of(
        clamp_of(
            rect.tall(),
            limits::FLOAT_MIN_HEIGHT as int,
            limits::FLOAT_MAX_HEIGHT as int,
        ),
        max_of(workspace.tall(), limits::FLOAT_MIN_HEIGHT as int),
    );
    let keep = min_of(limits::FLOAT_KEEP_VISIBLE as int, wide);
    Rect::sized(
        Pos2 {
            x: clamp_of(
                rect.min.x as int,
                workspace.min.x - (wide - keep),
                workspace.max.x - keep,
            ) as i64,
            y: clamp_of(
                rect.min.y as int,
                workspace.min.y as int,
                max_of(workspace.max.y - metrics::PANEL_HEADER, workspace.min.y as int),
            ) as i64,
        },
        Vec2 { x: wide as i64, y: tall as i64 },
    )
}

impl LayoutView {
    pub open spec fn columns(self, side: Side) -> Seq<ColumnView> {
        match side {
            Side::Left => self.left,
            Side::Right => self.right,
        }
    }

    pub open spec fn with_columns(self, side: Side, columns: Seq<ColumnView>) -> LayoutView {
        match side {
            Side::Left => LayoutView { left: columns, ..self },
            Side::Right => LayoutView { right: columns, ..self },
        }
    }

    /// How often a module is in the layout, not counting the one in hand.
    pub open spec fn placed(self, k: PanelKind) -> int {
        column_tally(self.left, k) + column_tally(self.right, k) + float_tally(self.floating, k)
    }

    /// Whether the module is the one in the pointer's hand.
    pub open spec fn held(self, k: PanelKind) -> bool {
        self.drag is Some && self.drag->0.kind == k
    }

    /// How often a module is anywhere: in the layout or in hand.
    pub open spec fn tally(self, k: PanelKind) -> int {
        self.placed(k) + if self.held(k) {
            1int
        } else {
            0
        }
    }

    /// There is at most one of each module.
    pub open spec fn one_of_each(self) -> bool {
        forall|k: PanelKind| #[trigger] self.tally(k) <= 1
    }

    /// What every operation keeps to: sizes in their ranges, and no blank
    /// column except the one a drag in progress has emptied.
    pub open spec fn kept(self) -> bool {
        &&& forall|k: PanelKind| #[trigger] self.tally(k) <= 2
        &&& columns_sound(self.left)
        &&& columns_sound(self.right)
        &&& floats_sound(self.floating)
        &&& self.drag is Some ==> drag_sound(self.drag->0)
        &&& self.drag is None ==> no_blank(self.left) && no_blank(self.right)
    }

    /// A layout the library works on: all of that, and no more columns than can
    /// be counted.
    pub open spec fn sound(self) -> bool {
        &&& self.kept()
        &&& self.left.len() <= usize::MAX
        &&& self.right.len() <= usize::MAX
    }

    /// The arrangement Umber ships with.
    pub open spec fn shipped() -> LayoutView {
        LayoutView {
            left: seq![ColumnView::of(PanelKind::Tools)],
            right: seq![
                ColumnView {
                    panels: seq![
                        Docked { kind: PanelKind::Colour, weight: 3_000_000 },
                        Docked { kind: PanelKind::Brushes, weight: 1_300_000 },
                        Docked { kind: PanelKind::Layers, weight: 2_200_000 },
                    ],
                    width: metrics::PANEL,
                },
            ],
            floating: Seq::empty(),
            drag: None,
            edit_mode: false,
            dirty: false,
        }
    }

    /// Where a module is docked on one side.
    pub open spec fn dock_of(self, side: Side, k: PanelKind) -> Option<Origin> {
        let columns = self.columns(side);
        let c = column_index(columns, k, 0);
        if c < columns.len() {
            let i = panel_index(columns[c].panels, k, 0);
            Some(
                Origin::Dock {
                    side,
                    column: c as usize,
                    index: i as usize,
                    weight: columns[c].panels[i].weight,
                    width: columns[c].width,
                },
            )
        } else {
            None
        }
    }

    /// Where a module is: the left side first, then the right, then floating.
    pub open spec fn place_of(self, k: PanelKind) -> Option<Origin> {
        if self.dock_of(Side::Left, k) is Some {
            self.dock_of(Side::Left, k)
        } else if self.dock_of(Side::Right, k) is Some {
            self.dock_of(Side::Right, k)
        } else {
            let f = float_index(self.floating, k, 0);
            if f < self.floating.len() {
                Some(Origin::Float(self.floating[f].rect))
            } else {
                None
            }
        }
    }

    /// Without the module, wherever [`Self::place_of`] found it. A column it
    /// was alone in stays, empty.
    pub open spec fn without(self, k: PanelKind) -> LayoutView {
        match self.place_of(k) {
            Some(Origin::Dock { side, column, index, .. }) => {
                let columns = self.columns(side);
                self.with_columns(
                    side,
                    with_panels(
                        columns,
                        column as int,
                        columns[column as int].panels.remove(index as int),
                    ),
                )
            },
            Some(Origin::Float(_)) => LayoutView {
                floating: self.floating.remove(float_index(self.floating, k, 0)),
                ..self
            },
            _ => self,
        }
    }

    /// With the module put back where it was. A column that has gone since is
    /// rebuilt.
    pub open spec fn with_put(self, k: PanelKind, origin: Origin) -> LayoutView {
        match origin {
            Origin::Dock { side, column, index, weight, width } => {
                let columns = self.columns(side);
                let docked = Docked { kind: k, weight };
                if column < columns.len() {
                    let panels = columns[column as int].panels;
                    let at = min_of(index as int, panels.len() as int);
                    self.with_columns(
                        side,
                        columns.update(column as int, columns[column as int].stacked(at, docked)),
                    )
                } else {
                    self.with_columns(side, columns.push(ColumnView::alone(docked, width as int)))
                }
            },
            Origin::Float(rect) => LayoutView {
                floating: self.floating.push(Floating { kind: k, rect }),
                ..self
            },
            Origin::Closed => self,
        }
    }

    /// Without the columns that hold nothing.
    pub open spec fn pruned(self) -> LayoutView {
        LayoutView {
            left: pruned_columns(self.left),
            right: pruned_columns(self.right),
            ..self
        }
    }

    pub open spec fn marked(self) -> LayoutView {
        LayoutView { dirty: true, ..self }
    }

    pub open spec fn closed(self, k: PanelKind) -> LayoutView {
        self.without(k).pruned().marked()
    }

    /// The side a reopened panel goes to: the right one, unless only the left
    /// one has columns.
    pub open spec fn open_side(self) -> Side {
        if self.right.len() == 0 && self.left.len() > 0 {
            Side::Left
        } else {
            Side::Right
        }
    }

    /// With a closed module back, at the bottom of the innermost column.
    pub open spec fn opened(self, k: PanelKind) -> LayoutView {
        if self.place_of(k) is Some {
            self
        } else {
            let side = self.open_side();
            let columns = self.columns(side);
            let docked = Docked { kind: k, weight: k.starting_weight() as i64 };
            let next = if columns.len() == 0 {
                seq![ColumnView::of(k)]
            } else {
                let last = columns.last();
                columns.update(columns.len() - 1, last.stacked(last.panels.len() as int, docked))
            };
            self.with_columns(side, next).marked()
        }
    }

    /// Back to the shipped arrangement, in whichever mode the layout is in.
    pub open spec fn reset(self) -> LayoutView {
        LayoutView { edit_mode: self.edit_mode, dirty: true, ..LayoutView::shipped() }
    }

    /// The size a panel takes in hand.
    pub open spec fn hand_size(origin: Origin, wide: int, tall: int) -> Vec2 {
        match origin {
            Origin::Float(rect) => Vec2 { x: rect.wide() as i64, y: rect.tall() as i64 },
            _ => Vec2 {
                x: clamp_of(
                    wide,
                    limits::FLOAT_MIN_WIDTH as int,
                    limits::FLOAT_MAX_WIDTH as int,
                ) as i64,
                y: clamp_of(
                    tall,
                    limits::FLOAT_MIN_HEIGHT as int,
                    limits::FLOAT_MAX_HEIGHT as int,
                ) as i64,
            },
        }
    }

    /// With the module lifted out of the layout and in the pointer's hand.
    /// Nothing happens while another one is, or outside edit mode.
    pub open spec fn lifted(self, k: PanelKind, pointer: Pos2, panel: Rect) -> LayoutView {
        if self.drag is Some || !self.edit_mode || self.place_of(k) is None {
            self
        } else {
            let origin = self.place_of(k)->0;
            let size = LayoutView::hand_size(origin, panel.wide(), panel.tall());
            LayoutView {
                drag: Some(
                    Drag {
                        kind: k,
                        grab: Vec2 {
                            x: min_of(pointer.x - panel.min.x, size.x - 24 * POINT) as i64,
                            y: min_of(pointer.y - panel.min.y, size.y as int) as i64,
                        },
                        float_size: size,
                        pointer,
                        sticky: false,
                        armed: false,
                        origin,
                    },
                ),
                dirty: true,
                ..self.without(k)
            }
        }
    }

    /// With the module picked up, from wherever it is or from nowhere, and the
    /// layout in edit mode. Nothing happens while another one is in hand.
    pub open spec fn picked_up(self, k: PanelKind, pointer: Pos2) -> LayoutView {
        if self.drag is Some {
            self
        } else {
            let origin = if self.place_of(k) is Some {
                self.place_of(k)->0
            } else {
                Origin::Closed
            };
            let size = LayoutView::hand_size(origin, metrics::PANEL as int, 260 * POINT);
            LayoutView {
                drag: Some(
                    Drag {
                        kind: k,
                        grab: Vec2 {
                            x: half_of(size.x as int) as i64,
                            y: half_of(metrics::PANEL_HEADER as int) as i64,
                        },
                        float_size: size,
                        pointer,
                        sticky: true,
                        armed: false,
                        origin,
                    },
                ),
                edit_mode: true,
                dirty: true,
                ..self.without(k)
            }
        }
    }

    /// With the pointer state of a frame noted: a sticky drag is armed by a
    /// frame in which the pointer was idle.
    pub open spec fn after_frame(self, any_down: bool, any_pressed: bool) -> LayoutView {
        if self.drag is Some && self.drag->0.sticky && !any_down && !any_pressed {
            LayoutView { drag: Some(Drag { armed: true, ..self.drag->0 }), ..self }
        } else {
            self
        }
    }

    /// Whether the drag in progress ends this frame: an ordinary one when no
    /// button is down, a sticky one on a press once it is armed.
    pub open spec fn drops(self, any_down: bool, any_pressed: bool) -> bool {
        self.drag is Some && if self.drag->0.sticky {
            self.drag->0.armed && any_pressed
        } else {
            !any_down
        }
    }

    pub open spec fn dragged_to(self, pointer: Pos2) -> LayoutView {
        if self.drag is Some {
            LayoutView { drag: Some(Drag { pointer, ..self.drag->0 }), ..self }
        } else {
            self
        }
    }

    /// The weight a panel is docked with: the one it had, if it was docked.
    pub open spec fn drop_weight(drag: Drag) -> int {
        match drag.origin {
            Origin::Dock { weight, .. } => weight as int,
            _ => drag.kind.starting_weight(),
        }
    }

    /// The width a panel gets as a column of its own: the one it had, if it was
    /// docked, held to what the module itself accepts.
    pub open spec fn drop_width(drag: Drag) -> int {
        clamp_of(
            match drag.origin {
                Origin::Dock { width, .. } => width as int,
                _ => drag.kind.starting_width(),
            },
            drag.kind.least_width(),
            limits::SIDEBAR_MAX_WIDTH as int,
        )
    }

    /// With the panel in hand put at `target`, before blank columns go.
    pub open spec fn landed(self, drag: Drag, target: DropTarget) -> LayoutView {
        let docked = Docked { kind: drag.kind, weight: LayoutView::drop_weight(drag) as i64 };
        let base = LayoutView { drag: None, ..self };
        match target {
            DropTarget::Dock { side, column, index } => {
                let columns = self.columns(side);
                if column < columns.len() {
                    let panels = columns[column as int].panels;
                    let at = min_of(index as int, panels.len() as int);
                    base.with_columns(
                        side,
                        columns.update(column as int, columns[column as int].stacked(at, docked)),
                    )
                } else {
                    base.with_columns(side, columns.push(ColumnView::of(drag.kind)))
                }
            },
            DropTarget::NewColumn { side, column } => {
                let columns = self.columns(side);
                let at = min_of(column as int, columns.len() as int);
                base.with_columns(
                    side,
                    columns.insert(
                        at,
                        ColumnView {
                            panels: seq![docked],
                            width: LayoutView::drop_width(drag) as i64,
                        },
                    ),
                )
            },
            DropTarget::Float => LayoutView {
                floating: self.floating.push(
                    Floating { kind: drag.kind, rect: drag.float_place() },
                ),
                ..base
            },
        }
    }

    /// With the panel in hand released onto `target`.
    pub open spec fn dropped(self, target: DropTarget) -> LayoutView {
        if self.drag is Some {
            self.landed(self.drag->0, target).pruned().marked()
        } else {
            self
        }
    }

    /// With the drag abandoned and the panel back where it came from.
    pub open spec fn cancelled(self) -> LayoutView {
        if self.drag is Some {
            let drag = self.drag->0;
            LayoutView { drag: None, ..self }.with_put(drag.kind, drag.origin).pruned().marked()
        } else {
            self
        }
    }

    /// In or out of edit mode. Leaving it abandons a drag.
    pub open spec fn in_mode(self, on: bool) -> LayoutView {
        if self.edit_mode == on {
            self
        } else {
            let next = LayoutView { edit_mode: on, ..self };
            if on {
                next
            } else {
                next.cancelled()
            }
        }
    }

    /// With one column set to a width, held to its limits and to whole points.
    pub open spec fn widened(self, side: Side, column: int, width: int) -> LayoutView {
        let columns = self.columns(side);
        if 0 <= column < columns.len() {
            let c = columns[column];
            let next = round_of(
                clamp_of(width, c.least_width(), limits::SIDEBAR_MAX_WIDTH as int),
            ) as i64;
            if next == c.width {
                self
            } else {
                self.with_columns(
                    side,
                    columns.update(column, ColumnView { panels: c.panels, width: next }),
                ).marked()
            }
        } else {
            self
        }
    }

    /// With the panels of one column weighted so that they keep these heights.
    pub open spec fn reweighted(self, side: Side, column: int, heights: Seq<i128>) -> LayoutView {
        let columns = self.columns(side);
        self.with_columns(
            side,
            with_panels(columns, column, weighted(columns[column].panels, spare_weights(heights))),
        ).marked()
    }

    /// With one boundary of one column moved. Nothing happens where there is no
    /// such boundary, or the heights are not that column's.
    pub open spec fn split_moved(
        self,
        side: Side,
        column: int,
        index: int,
        delta: int,
        heights: Seq<i128>,
    ) -> LayoutView {
        let columns = self.columns(side);
        if 0 <= column < columns.len() && 0 <= index < columns[column].panels.len() - 1
            && heights.len() == columns[column].panels.len() {
            self.reweighted(side, column, split_heights(heights, index, delta))
        } else {
            self
        }
    }

    /// With every floating panel's header in the workspace.
    pub open spec fn pulled_back(self, workspace: Rect) -> LayoutView {
        LayoutView {
            floating: self.floating.map_values(
                |f: Floating| Floating { kind: f.kind, rect: place_in(f.rect, workspace) },
            ),
            ..self
        }
    }

    /// With a floating panel placed.
    pub open spec fn float_moved(self, k: PanelKind, rect: Rect) -> LayoutView {
        let f = float_index(self.floating, k, 0);
        if f < self.floating.len() && self.floating[f].rect != rect {
            LayoutView {
                floating: self.floating.update(f, Floating { kind: k, rect }),
                dirty: true,
                ..self
            }
        } else {
            self
        }
    }

    /// With a floating panel in front of the others.
    pub open spec fn raised(self, k: PanelKind) -> LayoutView {
        let f = float_index(self.floating, k, 0);
        if f + 1 < self.floating.len() {
            LayoutView {
                floating: self.floating.remove(f).push(self.floating[f]),
                dirty: true,
                ..self
            }
        } else {
            self
        }
    }

    /// Whether the layout, rather than the canvas, owns the pointer.
    pub open spec fn blocks(self, pointer: Pos2) -> bool {
        ||| self.edit_mode
        ||| self.drag is Some
        ||| exists|i: int|
            0 <= i < self.floating.len() && (#[trigger] self.floating[i]).rect.holds(pointer)
    }
}

} // verus!
