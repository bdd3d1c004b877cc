use vstd::prelude::*;

use crate::exec::loops::GameLoopKind;
use crate::exec::mode::Mode;
use crate::utils::frequency::Frequency;

verus! {

/// The size of a window's drawing area in physical pixels.
#[derive(Clone, Copy, Debug, PartialEq, Eq, Structural)]
pub struct PhysicalSize {
    pub width: u32,
    pub height: u32,
}

/// What the manager tells the thread of a runner.
pub enum ToRunnerMsg<T> {
    /// Give the loop of this kind back.
    RequestLoop(GameLoopKind),
    /// Take this loop and run it at this rate.
    SendLoop(GameLoopKind, T, Frequency),
    /// Run the loop of this kind at this rate from now on.
    SetRelativeFrequency(GameLoopKind, Frequency),
    /// End the thread.
    Stop,
}

/// What the thread of a runner answers.
pub enum FromRunnerMsg<T> {
    /// The loop that was asked for.
    SendLoop(T),
}

impl<T> FromRunnerMsg<T> {
    /// The loop that the message carries.
    pub fn into_loop(self) -> (game_loop: T)
        ensures
            self == FromRunnerMsg::SendLoop(game_loop),
    {
        match self {
            FromRunnerMsg::SendLoop(game_loop) => game_loop,
        }
    }
}

/// What the scenes tell the manager.
pub enum ELGLMMsg {
    /// Move the loops to where this mode wants them.
    SetMode(Mode),
    /// End the program.
    Stop,
}

/// What the scenes tell the render loop.
#[derive(Clone, Copy, Debug, PartialEq, Eq, Structural)]
pub enum ELRLMsg {
    /// The window has this size now.
    Resize(PhysicalSize),
}

} // verus!
