//! The controls of the settings page: what they look like, where their parts go
//! and what they answer.

pub mod glyph;
pub mod keys;
pub mod look;
