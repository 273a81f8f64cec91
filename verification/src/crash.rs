//! The crash reporter: what a report holds, what the frame loop tells it in
//! advance, and every sentence it can produce.
//!
//! A report is a plain record that is written by a panic hook in one process
//! and read by a window in another, so every rule about what it says is a
//! function of the record.

pub mod context;
pub mod launch;
pub mod report;
pub mod window;
