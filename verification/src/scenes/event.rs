use vstd::prelude::*;

use crate::exec::msg::PhysicalSize;

verus! {

/// What happened to a window, as far as the scenes care.
#[derive(Clone, Copy, Debug, PartialEq, Eq, Structural)]
pub enum WindowEvent {
    /// The user asked to close the window.
    CloseRequested,
    /// The drawing area of the window has this size now.
    Resized(PhysicalSize),
    /// Anything else.
    Other,
}

/// An event of the platform's event loop, as far as the scenes care.
#[derive(Clone, Copy, Debug, PartialEq, Eq, Structural)]
pub enum Event {
    /// Something happened to the window with this id.
    WindowEvent { window_id: u64, event: WindowEvent },
    /// Anything else.
    Other,
}

} // verus!
