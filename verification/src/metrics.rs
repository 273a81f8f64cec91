//! The design's own fixed sizes, on the grid of [`crate::geom`].

use vstd::prelude::*;

verus! {

/// How wide a panel is drawn.
pub const PANEL: i64 = 2_640_000;

/// How wide the tool rail is at its narrowest.
pub const TOOL_RAIL: i64 = 760_000;

/// How tall a panel's header is. It is the handle a panel is moved by.
pub const PANEL_HEADER: i64 = 320_000;

} // verus!
