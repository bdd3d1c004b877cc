use vstd::prelude::*;

use crate::exec::msg::ELGLMMsg;
use crate::scenes::event::{Event, WindowEvent};

verus! {

/// Ends the program when its window is asked to close.
pub struct CloseWindowScene;

impl CloseWindowScene {
    /// Whether the event asks the window with this id to close.
    pub open spec fn closes(e: Event, wid: u64) -> bool {
        e == (Event::WindowEvent { window_id: wid, event: WindowEvent::CloseRequested })
    }

    /// The message for the manager that the event calls for: a stop when the
    /// window with this id is asked to close, none otherwise.
    pub fn handle_event(e: &Event, wid: u64) -> (msg: Option<ELGLMMsg>)
        ensures
            msg == if Self::closes(*e, wid) {
                Some(ELGLMMsg::Stop)
            } else {
                None
            },
    {
        match e {
            Event::WindowEvent { window_id, event: WindowEvent::CloseRequested } => {
                if *window_id == wid {
                    Some(ELGLMMsg::Stop)
                } else {
                    None
                }
            },
            _ => None,
        }
    }
}

} // verus!
