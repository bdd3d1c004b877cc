use vstd::prelude::*;

use crate::exec::msg::{ELRLMsg, PhysicalSize};
use crate::scenes::event::{Event, WindowEvent};

verus! {

/// Tells the render loop when its window changes size.
pub struct ResizeWindowScene;

impl ResizeWindowScene {
    /// The size that the event gives to the window with this id, if it gives
    /// it one.
    pub open spec fn resizes(e: Event, wid: u64) -> Option<PhysicalSize> {
        match e {
            Event::WindowEvent { window_id, event: WindowEvent::Resized(size) } => if window_id
                == wid {
                Some(size)
            } else {
                None
            },
            _ => None,
        }
    }

    /// The message for the render loop that the event calls for: the new size
    /// when the window with this id was resized, none otherwise.
    pub fn handle_event(e: &Event, wid: u64) -> (msg: Option<ELRLMsg>)
        ensures
            msg == match Self::resizes(*e, wid) {
                Some(size) => Some(ELRLMsg::Resize(size)),
                None => None,
            },
    {
        match e {
            Event::WindowEvent { window_id, event: WindowEvent::Resized(size) } => {
                if *window_id == wid {
                    Some(ELRLMsg::Resize(*size))
                } else {
                    None
                }
            },
            _ => None,
        }
    }
}

} // verus!
