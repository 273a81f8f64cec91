//! Editor state: everything that is not a GPU resource or a window, and what
//! each thing the artist does makes of it.

pub mod document;
pub mod frames;
pub mod front;
pub mod hand;
pub mod history;
pub mod layers;
pub mod select;
pub mod session;
pub mod state;
pub mod stroke;
pub mod transform;
pub mod view;
