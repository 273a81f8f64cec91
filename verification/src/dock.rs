//! The layout model: which modules are docked where, which float, how big they
//! are, and where a dragged one would land.
//!
//! Nothing here draws. A layout is a list of columns for each side, counted
//! from the window edge inwards, a list of floating panels, and at most one
//! panel in the pointer's hand. There is exactly one of each module, so a
//! module's kind is its identity: no kind is ever in two places at once.

pub mod aiming;
pub mod config;
pub mod count;
pub mod geometry;
pub mod handling;
pub mod heights;
pub mod keep;
pub mod kind;
pub mod laws;
pub mod layout;
pub mod limits;
pub mod lines;
pub mod model;
pub mod saved;
pub mod store;
