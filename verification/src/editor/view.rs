//! Where the canvas is in the window, and who a press belongs to.

use crate::dock::layout::Layout;
use crate::dock::model::LayoutView;
use crate::editor::state::{Interaction, Surroundings, Tool};
use crate::geom::{max_of, Pos2, Rect, Vec2, POINT, REACH};
use crate::ratio::{nearest_div, nearest_of};
use crate::root::{root, root_of};
use vstd::prelude::*;

verus! {

/// The canvas region, the controls drawn inside it, and the pointer. Positions
/// in the window are physical pixels; rectangles are in points. Both are on the
/// grid.
#[derive(Clone, Copy, Debug)]
pub struct Viewport {
    /// Centre of the region the document is drawn in.
    pub canvas_pivot: Pos2,
    pub canvas_size: Vec2,
    /// Physical pixels per point.
    pub pixels_per_point: i64,
    /// The canvas scrollbars, horizontal then vertical.
    pub scroll_bars: (Option<Rect>, Option<Rect>),
    /// The floating transform's two flip buttons.
    pub transform_buttons: (Option<Rect>, Option<Rect>),
    /// The live selection's three buttons: Deselect, Copy, Cut.
    pub selection_buttons: (Option<Rect>, Option<Rect>, Option<Rect>),
    pub cursor: Pos2,
    /// When the pointer was last read, in nanoseconds since the start.
    pub sampled: u64,
    /// Whether a pen or a finger, rather than a mouse, is driving the pointer.
    pub pen_pointer: bool,
}

/// A reading of the pointer: where it is in the document, how far it has come
/// since the reading before, and how long that took. The distance is measured in
/// document pixels, so that what is made of its speed is the same at every zoom.
#[derive(Clone, Copy, Debug, PartialEq, Eq, Structural)]
pub struct Sample {
    pub at: Pos2,
    pub distance: i64,
    pub elapsed: u64,
}

/// Whether a control covers a point.
pub open spec fn covers(control: Option<Rect>, at: Pos2) -> bool {
    control matches Some(rect) && rect.holds(at)
}

fn covered(control: Option<Rect>, at: Pos2) -> (r: bool)
    ensures
        r == covers(control, at),
{
    match control {
        Some(rect) => rect.contains(at),
        None => false,
    }
}

/// A window position the arithmetic here has room for.
pub open spec fn on_screen(p: Pos2) -> bool {
    &&& -REACH / 1_000 <= p.x <= REACH / 1_000
    &&& -REACH / 1_000 <= p.y <= REACH / 1_000
}

/// Physical pixels to points. The scale is never taken to be less than a
/// thousandth.
pub open spec fn in_points(v: int, scale: int) -> int {
    nearest_of(v * POINT, max_of(scale, 10))
}

fn points(v: i64, scale: i64) -> (r: i64)
    requires
        -REACH / 1_000 <= v <= REACH / 1_000,
    ensures
        r == in_points(v as int, scale as int),
        -REACH <= r <= REACH,
{
    let by: i128 = if scale >= 10 {
        scale as i128
    } else {
        10
    };
    proof {
        let (n, d, k) = (v * 10_000, by as int, 1_000_000_000_000_000int);
        assert(-k <= (2 * n + d) / (2 * d) <= k) by (nonlinear_arith)
            requires
                d >= 10,
                -10_000_000_000_000_000 <= n <= 10_000_000_000_000_000,
                k == 1_000_000_000_000_000,
        ;
    }
    nearest_div((v as i128) * 10_000, by) as i64
}

impl Viewport {
    pub open spec fn sound(self) -> bool {
        &&& on_screen(self.canvas_pivot)
        &&& 0 <= self.canvas_size.x <= REACH / 1_000
        &&& 0 <= self.canvas_size.y <= REACH / 1_000
        &&& on_screen(self.cursor)
    }

    /// As a window that nothing has been drawn in yet.
    pub fn new() -> (r: Viewport)
        ensures
            r == (Viewport {
                canvas_pivot: Pos2 { x: 0, y: 0 },
                canvas_size: Vec2 { x: POINT, y: POINT },
                pixels_per_point: POINT,
                scroll_bars: (None, None),
                transform_buttons: (None, None),
                selection_buttons: (None, None, None),
                cursor: Pos2 { x: 0, y: 0 },
                sampled: 0,
                pen_pointer: false,
            }),
            r.sound(),
    {
        Viewport {
            canvas_pivot: Pos2 { x: 0, y: 0 },
            canvas_size: Vec2 { x: POINT, y: POINT },
            pixels_per_point: POINT,
            scroll_bars: (None, None),
            transform_buttons: (None, None),
            selection_buttons: (None, None, None),
            cursor: Pos2 { x: 0, y: 0 },
            sampled: 0,
            pen_pointer: false,
        }
    }

    /// Read the pointer, where it and the cursor of the reading before come to in
    /// the document. A clock that ran backwards is taken to have stood still.
    pub fn sample(&mut self, now: u64, doc: Pos2, before: Pos2) -> (r: Sample)
        requires
            doc.in_reach(),
            before.in_reach(),
        ensures
            r.at == doc,
            r.distance == root_of(
                (doc.x - before.x) * (doc.x - before.x) + (doc.y - before.y) * (doc.y - before.y),
            ),
            r.elapsed == max_of(now - old(self).sampled, 0),
            *final(self) == (Viewport { sampled: now, ..*old(self) }),
    {
        let elapsed: u64 = if now >= self.sampled {
            now - self.sampled
        } else {
            0
        };
        self.sampled = now;
        let x: i128 = (doc.x - before.x) as i128;
        let y: i128 = (doc.y - before.y) as i128;
        proof {
            let (p, s, q) = (x as int, y as int, 2_000_000_000_000_000int);
            assert(0 <= p * p <= q * q) by (nonlinear_arith)
                requires
                    -q <= p <= q,
            ;
            assert(0 <= s * s <= q * q) by (nonlinear_arith)
                requires
                    -q <= s <= q,
            ;
        }
        let distance: i128 = root(x * x + y * y);
        Sample { at: doc, distance: distance as i64, elapsed }
    }

    pub open spec fn point_of(self, screen: Pos2) -> Pos2 {
        Pos2 {
            x: in_points(screen.x as int, self.pixels_per_point as int) as i64,
            y: in_points(screen.y as int, self.pixels_per_point as int) as i64,
        }
    }

    pub fn to_points(&self, screen: Pos2) -> (r: Pos2)
        requires
            on_screen(screen),
        ensures
            r == self.point_of(screen),
    {
        Pos2 {
            x: points(screen.x, self.pixels_per_point),
            y: points(screen.y, self.pixels_per_point),
        }
    }

    /// Whether one of the controls inside the canvas region is there. Both the
    /// mouse and the pen ask here, so none can be missing for one of them.
    pub open spec fn overlaid(self, screen: Pos2) -> bool {
        let at = self.point_of(screen);
        ||| covers(self.scroll_bars.0, at)
        ||| covers(self.scroll_bars.1, at)
        ||| covers(self.transform_buttons.0, at)
        ||| covers(self.transform_buttons.1, at)
        ||| covers(self.selection_buttons.0, at)
        ||| covers(self.selection_buttons.1, at)
        ||| covers(self.selection_buttons.2, at)
    }

    pub fn canvas_overlay_owns_pointer(&self, screen: Pos2) -> (r: bool)
        requires
            on_screen(screen),
        ensures
            r == self.overlaid(screen),
    {
        let at = self.to_points(screen);
        covered(self.scroll_bars.0, at) || covered(self.scroll_bars.1, at) || covered(
            self.transform_buttons.0,
            at,
        ) || covered(self.transform_buttons.1, at) || covered(self.selection_buttons.0, at)
            || covered(self.selection_buttons.1, at) || covered(self.selection_buttons.2, at)
    }

    /// Whether the layout, rather than the canvas, owns the pointer.
    pub fn layout_owns_pointer(&self, layout: &Layout, screen: Pos2) -> (r: bool)
        requires
            on_screen(screen),
        ensures
            r == layout@.blocks(self.point_of(screen)),
    {
        layout.blocks_canvas(self.to_points(screen))
    }

    /// Whether a position lies in the canvas region, its edges included.
    pub open spec fn in_region(self, screen: Pos2) -> bool {
        &&& 2 * (screen.x - self.canvas_pivot.x) <= self.canvas_size.x
        &&& -self.canvas_size.x <= 2 * (screen.x - self.canvas_pivot.x)
        &&& 2 * (screen.y - self.canvas_pivot.y) <= self.canvas_size.y
        &&& -self.canvas_size.y <= 2 * (screen.y - self.canvas_pivot.y)
    }

    /// Whether a press belongs to the document: in the canvas region, and over
    /// nothing that the layout or a control in the region owns.
    pub open spec fn over_canvas(self, layout: LayoutView, screen: Pos2) -> bool {
        &&& self.in_region(screen)
        &&& !layout.blocks(self.point_of(screen))
        &&& !self.overlaid(screen)
    }

    pub fn pointer_over_canvas(&self, layout: &Layout, screen: Pos2) -> (r: bool)
        requires
            self.sound(),
            on_screen(screen),
        ensures
            r == self.over_canvas(layout@, screen),
    {
        let dx: i64 = 2 * (screen.x - self.canvas_pivot.x);
        let dy: i64 = 2 * (screen.y - self.canvas_pivot.y);
        let inside = dx <= self.canvas_size.x && -self.canvas_size.x <= dx && dy
            <= self.canvas_size.y && -self.canvas_size.y <= dy;
        inside && !self.layout_owns_pointer(layout, screen) && !self.canvas_overlay_owns_pointer(
            screen,
        )
    }

    /// Where the canvas draws its own pointer this frame, and nowhere where the
    /// cursor the desktop gave is the right one: a mouse keeps its arrow, a
    /// dialog and a panel are things to point at, and a window without the focus
    /// asks for nothing.
    pub open spec fn dot(self, layout: LayoutView, around: Surroundings) -> Option<Pos2> {
        if self.pen_pointer && around.focused && !around.over_area && self.over_canvas(
            layout,
            self.cursor,
        ) {
            Some(self.cursor)
        } else {
            None
        }
    }

    pub fn pen_dot(&self, layout: &Layout, around: Surroundings) -> (r: Option<Pos2>)
        requires
            self.sound(),
        ensures
            r == self.dot(layout@, around),
    {
        if self.pen_pointer && around.focused && !around.over_area && self.pointer_over_canvas(
            layout,
            self.cursor,
        ) {
            Some(self.cursor)
        } else {
            None
        }
    }

    /// Whether a pick is aimed: the eyedropper in hand, over somewhere a press
    /// would take a colour from, and no other gesture holding the pointer.
    pub open spec fn aimed(
        self,
        layout: LayoutView,
        tool: Tool,
        interaction: Interaction,
        around: Surroundings,
    ) -> bool {
        &&& tool == Tool::Eyedropper
        &&& interaction.aims()
        &&& !around.over_area
        &&& around.focused
        &&& self.over_canvas(layout, self.cursor)
    }

    pub fn aiming_pick(
        &self,
        layout: &Layout,
        tool: Tool,
        interaction: Interaction,
        around: Surroundings,
    ) -> (r: bool)
        requires
            self.sound(),
        ensures
            r == self.aimed(layout@, tool, interaction, around),
    {
        matches!(tool, Tool::Eyedropper) && interaction.allows_aim() && !around.over_area
            && around.focused && self.pointer_over_canvas(layout, self.cursor)
    }
}

/// Where the dot is drawn is somewhere a press would reach the document.
pub proof fn the_dot_is_where_a_press_would_land(
    view: Viewport,
    layout: LayoutView,
    around: Surroundings,
)
    ensures
        view.dot(layout, around) matches Some(at) ==> view.over_canvas(layout, at),
{
}

/// Every control inside the canvas takes the pointer off the canvas, and none
/// claims canvas that it does not cover.
pub proof fn every_overlay_takes_the_pointer(view: Viewport, layout: LayoutView, screen: Pos2)
    ensures
        view.overlaid(screen) ==> !view.over_canvas(layout, screen),
        view.in_region(screen) && !layout.blocks(view.point_of(screen)) && !view.overlaid(screen)
            ==> view.over_canvas(layout, screen),
{
}

/// A place in points, times the scale, is the place in pixels, to half a step of
/// the scale.
pub proof fn points_are_pixels_over_the_scale(view: Viewport, screen: Pos2)
    requires
        on_screen(screen),
        10 <= view.pixels_per_point <= REACH,
    ensures
        ({
            let (at, scale) = (view.point_of(screen), view.pixels_per_point as int);
            &&& -scale <= 2 * (at.x * scale - screen.x * 10_000) <= scale
            &&& -scale <= 2 * (at.y * scale - screen.y * 10_000) <= scale
        }),
{
    lemma_points_near(screen.x as int, view.pixels_per_point as int);
    lemma_points_near(screen.y as int, view.pixels_per_point as int);
}

proof fn lemma_points_near(v: int, scale: int)
    requires
        -REACH / 1_000 <= v <= REACH / 1_000,
        10 <= scale <= REACH,
    ensures
        -scale <= 2 * (in_points(v, scale) * scale - v * 10_000) <= scale,
        -REACH <= in_points(v, scale) <= REACH,
{
    let (n, q) = (v * 10_000, in_points(v, scale));
    assert(v * POINT == n) by (nonlinear_arith)
        requires
            POINT == 10_000,
            n == v * 10_000,
    ;
    assert(-scale <= 2 * (q * scale - n) <= scale) by (nonlinear_arith)
        requires
            q == (2 * n + scale) / (2 * scale),
            scale > 0,
    ;
    assert(-1_000_000_000_000_000 <= q <= 1_000_000_000_000_000) by (nonlinear_arith)
        requires
            -scale <= 2 * (q * scale - n) <= scale,
            -10_000_000_000_000_000 <= n <= 10_000_000_000_000_000,
            scale >= 10,
    ;
}

/// A control takes the pointer exactly where it is drawn, edges included, and any
/// of the seven does.
pub proof fn a_control_takes_the_pointer_where_it_is_drawn(view: Viewport, screen: Pos2, rect: Rect)
    requires
        ({
            ||| view.scroll_bars.0 == Some(rect)
            ||| view.scroll_bars.1 == Some(rect)
            ||| view.transform_buttons.0 == Some(rect)
            ||| view.transform_buttons.1 == Some(rect)
            ||| view.selection_buttons.0 == Some(rect)
            ||| view.selection_buttons.1 == Some(rect)
            ||| view.selection_buttons.2 == Some(rect)
        }),
        rect.min.x <= view.point_of(screen).x <= rect.max.x,
        rect.min.y <= view.point_of(screen).y <= rect.max.y,
    ensures
        view.overlaid(screen),
        forall|layout: LayoutView| !#[trigger] view.over_canvas(layout, screen),
{
}

/// Where no control is drawn none takes the pointer.
pub proof fn no_control_takes_what_it_does_not_cover(view: Viewport, screen: Pos2)
    requires
        view.overlaid(screen),
    ensures
        exists|rect: Rect|
            {
                &&& rect.min.x <= view.point_of(screen).x <= rect.max.x
                &&& rect.min.y <= view.point_of(screen).y <= rect.max.y
                &&& #[trigger] drawn_inside(view, rect)
            },
{
    let at = view.point_of(screen);
    let rect = if covers(view.scroll_bars.0, at) {
        view.scroll_bars.0->0
    } else if covers(view.scroll_bars.1, at) {
        view.scroll_bars.1->0
    } else if covers(view.transform_buttons.0, at) {
        view.transform_buttons.0->0
    } else if covers(view.transform_buttons.1, at) {
        view.transform_buttons.1->0
    } else if covers(view.selection_buttons.0, at) {
        view.selection_buttons.0->0
    } else if covers(view.selection_buttons.1, at) {
        view.selection_buttons.1->0
    } else {
        view.selection_buttons.2->0
    };
    assert(drawn_inside(view, rect));
}

/// Whether a rectangle is that of a control drawn inside the canvas.
pub open spec fn drawn_inside(view: Viewport, rect: Rect) -> bool {
    ||| view.scroll_bars.0 == Some(rect)
    ||| view.scroll_bars.1 == Some(rect)
    ||| view.transform_buttons.0 == Some(rect)
    ||| view.transform_buttons.1 == Some(rect)
    ||| view.selection_buttons.0 == Some(rect)
    ||| view.selection_buttons.1 == Some(rect)
    ||| view.selection_buttons.2 == Some(rect)
}

/// The canvas region lies about its pivot, half its size to either side.
pub proof fn the_region_lies_about_its_pivot(view: Viewport, screen: Pos2, dx: int, dy: int)
    requires
        screen.x == view.canvas_pivot.x + dx,
        screen.y == view.canvas_pivot.y + dy,
    ensures
        view.in_region(screen) <==> -view.canvas_size.x <= 2 * dx <= view.canvas_size.x
            && -view.canvas_size.y <= 2 * dy <= view.canvas_size.y,
{
}

/// A press reaches the document in the region, outside edit mode and drags, away
/// from every floating panel and every control; and there alone.
pub proof fn a_press_reaches_the_document_where_nothing_else_is(
    view: Viewport,
    layout: LayoutView,
    screen: Pos2,
)
    ensures
        view.over_canvas(layout, screen) <==> {
            &&& view.in_region(screen)
            &&& !view.overlaid(screen)
            &&& !layout.edit_mode
            &&& layout.drag is None
            &&& forall|i: int|
                0 <= i < layout.floating.len() ==> !(#[trigger] layout.floating[i]).rect.holds(
                    view.point_of(screen),
                )
        },
{
}

/// The dot stands for a pen alone, at the cursor, in a window with the focus,
/// under no menu or dialog, and over the document.
pub proof fn the_dot_stands_for_a_pen(view: Viewport, layout: LayoutView, around: Surroundings)
    ensures
        view.dot(layout, around) is Some <==> view.pen_pointer && around.focused
            && !around.over_area && view.over_canvas(layout, view.cursor),
        view.dot(layout, around) is Some ==> view.dot(layout, around) == Some(view.cursor),
{
}

/// A colour is aimed at with the eyedropper alone, hovering or already taking
/// one, in a window with the focus, under no menu or dialog, and over the document.
pub proof fn a_pick_is_aimed_with_the_eyedropper(
    view: Viewport,
    layout: LayoutView,
    tool: Tool,
    interaction: Interaction,
    around: Surroundings,
)
    ensures
        view.aimed(layout, tool, interaction, around) <==> tool == Tool::Eyedropper && (interaction
            == Interaction::Idle || interaction == Interaction::Picking) && around.focused
            && !around.over_area && view.over_canvas(layout, view.cursor),
{
}

} // verus!
