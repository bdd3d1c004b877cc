//! What the program makes of the events of its window.

pub mod common;
pub mod event;
pub mod root;
