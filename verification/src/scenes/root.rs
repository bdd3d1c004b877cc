use vstd::prelude::*;

use crate::exec::msg::{ELGLMMsg, ELRLMsg};
use crate::scenes::common::close_window::CloseWindowScene;
use crate::scenes::common::resize_window::ResizeWindowScene;
use crate::scenes::event::Event;

verus! {

/// The messages that an event calls for.
pub struct Outbox {
    /// For the manager.
    pub manager: Option<ELGLMMsg>,
    /// For the render loop.
    pub render_loop: Option<ELRLMsg>,
}

/// The scene that every event goes to first.
pub struct RootScene;

impl RootScene {
    /// The root scene, which has no state of its own.
    pub fn new() -> (scene: Self)
        ensures
            scene == RootScene,
    {
        RootScene
    }

    /// Shows the event to the scenes in turn, up to the first that handles
    /// it, and gives the messages that this called for: closing the window
    /// comes before resizing it.
    pub fn handle_event(&self, e: Event, wid: u64) -> (outbox: Outbox)
        ensures
            outbox.manager == if CloseWindowScene::closes(e, wid) {
                Some(ELGLMMsg::Stop)
            } else {
                None
            },
            outbox.render_loop == match ResizeWindowScene::resizes(e, wid) {
                Some(size) => Some(ELRLMsg::Resize(size)),
                None => None,
            },
    {
        let manager = CloseWindowScene::handle_event(&e, wid);
        let render_loop = if manager.is_none() {
            ResizeWindowScene::handle_event(&e, wid)
        } else {
            None
        };
        Outbox { manager, render_loop }
    }
}

} // verus!
