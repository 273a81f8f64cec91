//! Minimum and maximum sizes, on the grid of [`crate::geom`].
//!
//! These are guards against destroying a panel by dragging, not design values;
//! the design's own fixed sizes are in [`crate::metrics`].

use vstd::prelude::*;

verus! {

/// Enough for a header plus a usable sliver of content.
pub const PANEL_MIN_HEIGHT: i64 = 960_000;

/// The narrowest a column holding an ordinary module may be dragged. A column
/// holding only the tool rail may go narrower.
pub const SIDEBAR_MIN_WIDTH: i64 = 1_900_000;

pub const SIDEBAR_MAX_WIDTH: i64 = 4_600_000;

/// What is always left for the document, however many columns are docked.
pub const CANVAS_MIN_WIDTH: i64 = 1_900_000;

pub const FLOAT_MIN_WIDTH: i64 = 1_900_000;

pub const FLOAT_MIN_HEIGHT: i64 = 1_300_000;

pub const FLOAT_MAX_WIDTH: i64 = 7_200_000;

pub const FLOAT_MAX_HEIGHT: i64 = 9_000_000;

/// How far in from the canvas edge counts as "drop into this side" when that
/// side is empty and so has no rectangle of its own.
pub const EMPTY_ZONE_WIDTH: i64 = 1_040_000;

/// How far in from a column's outer or inner edge counts as "put a new column
/// here". Three tenths of the column at most, so the two bands never meet.
pub const NEW_COLUMN_ZONE: i64 = 400_000;

/// How much of a floating panel must stay inside the workspace.
pub const FLOAT_KEEP_VISIBLE: i64 = 960_000;

/// A weight of one. Weights are held in millionths.
pub const WEIGHT_ONE: i64 = 1_000_000;

/// The largest weight a saved layout may give a panel.
pub const WEIGHT_MAX: i64 = 1_000_000_000;

/// The most a panel can weigh: what a column as tall as the grid reaches has to
/// spare.
pub const WEIGHT_LIMIT: i64 = 1_600_000_000_000_000_000;

/// The limits in points: a panel is at least 96 tall, a column 190 to 460 wide, a float
/// 190 to 720 by 130 to 900 with 96 of it in sight, and the canvas keeps 190.
pub proof fn limits_in_points()
    ensures
        PANEL_MIN_HEIGHT == 96 * 10_000,
        SIDEBAR_MIN_WIDTH == 190 * 10_000,
        SIDEBAR_MAX_WIDTH == 460 * 10_000,
        CANVAS_MIN_WIDTH == 190 * 10_000,
        FLOAT_MIN_WIDTH == 190 * 10_000,
        FLOAT_MIN_HEIGHT == 130 * 10_000,
        FLOAT_MAX_WIDTH == 720 * 10_000,
        FLOAT_MAX_HEIGHT == 900 * 10_000,
        EMPTY_ZONE_WIDTH == 104 * 10_000,
        NEW_COLUMN_ZONE == 40 * 10_000,
        FLOAT_KEEP_VISIBLE == 96 * 10_000,
        WEIGHT_MAX == 1_000 * WEIGHT_ONE,
        WEIGHT_ONE == 1_000_000,
{
}

} // verus!
