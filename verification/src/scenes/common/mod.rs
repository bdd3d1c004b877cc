//! Scenes that every program with a window needs.

pub mod close_window;
pub mod resize_window;
