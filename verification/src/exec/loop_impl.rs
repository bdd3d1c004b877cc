use std::sync::Arc;

use vstd::prelude::*;

use crate::exec::loops::GameLoop;
use crate::exec::msg::{ELRLMsg, PhysicalSize};
use crate::scenes::root::RootScene;

verus! {

/// The loop that advances the simulation.
pub struct UpdateLoop {
    pub root_scene: Arc<RootScene>,
}

impl GameLoop for UpdateLoop {

}

/// The loop that mixes the sound.
pub struct AudioLoop {
    pub root_scene: Arc<RootScene>,
}

impl GameLoop for AudioLoop {

}

/// What the render loop remembers of the sizes that its window was given: the
/// last one, until the swapchain has taken it.
pub struct PendingResize {
    pub new_size: Option<PhysicalSize>,
}

impl PendingResize {
    /// No size is waiting.
    pub fn new() -> (pending: Self)
        ensures
            pending.new_size.is_none(),
    {
        PendingResize { new_size: None }
    }

    /// Takes in what the render loop found in its channel: a new size
    /// replaces the one that was waiting.
    pub fn receive(&mut self, msg: Option<ELRLMsg>)
        ensures
            final(self).new_size == match msg {
                Some(ELRLMsg::Resize(size)) => Some(size),
                None => old(self).new_size,
            },
    {
        match msg {
            Some(ELRLMsg::Resize(size)) => {
                self.new_size = Some(size);
            },
            None => {},
        }
    }

    /// Takes in what came of resizing the swapchain to the size that was
    /// waiting: once that is done the size waits no more.
    pub fn resized(&mut self, done: bool)
        ensures
            final(self).new_size == if done {
                None
            } else {
                old(self).new_size
            },
    {
        if done {
            self.new_size = None;
        }
    }
}

} // verus!
