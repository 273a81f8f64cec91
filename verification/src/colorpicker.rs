//! The colour picker: a hue ring with a triangle or a square in it, a plain
//! square with a hue bar, RGB sliders, and a harmony wheel.
//!
//! Hue, saturation and value are the picker's state, not the colour, so dragging
//! the value to black does not lose the hue. A wheel carries two controls in one
//! hit area, and which of them a gesture works is settled once, at its press.

pub mod gesture;
pub mod hub;
pub mod mesh;
pub mod mode;
pub mod slider;
pub mod swatch;
pub mod wheel;
