//! The parts of the Umber painting application that can be reasoned about
//! without a window or a GPU, each with a contract that says exactly what it
//! does.

pub mod controls;
pub mod cputext;
pub mod colorpicker;
pub mod colour;
pub mod crash;
pub mod dock;
pub mod docshot;
pub mod editor;
pub mod geom;
pub mod metrics;
pub mod number;
pub mod picture;
pub mod ratio;
pub mod root;
pub mod text;
