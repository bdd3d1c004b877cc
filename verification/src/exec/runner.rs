use vstd::prelude::*;

use crate::exec::loops::{
    inserted, rated, slots_wf, taken, tick, ContainerSlot, GameLoop, GameLoopContainer,
    GameLoopKind, RunReport, NUM_GAME_LOOPS,
};
use crate::exec::msg::{FromRunnerMsg, ToRunnerMsg};

verus! {

/// What the thread of a runner does next.
#[derive(Clone, Copy, Debug, PartialEq, Eq, Structural)]
pub enum RunnerState {
    /// No loop lives here: wait for a message, however long it takes.
    AwaitingWork,
    /// Loops live here: look for a message without waiting, then pace and
    /// tick.
    Paced,
}

/// What came of looking into the channel from the manager.
pub enum Inbound<T> {
    /// A message was there.
    Message(ToRunnerMsg<T>),
    /// No message was there, and none was waited for.
    Empty,
    /// The manager's end of the channel is gone.
    Disconnected,
}

/// What the thread of a runner has to do after it looked into its channel.
pub enum RunnerAction<T> {
    /// Nothing: go on.
    Continue,
    /// Send this answer to the manager, then go on.
    Reply(FromRunnerMsg<T>),
    /// End the thread in good order, before any further tick.
    Stop,
    /// End the thread with an error: the channel is gone.
    Fail,
}

/// How the thread of a runner looks into its channel.
#[derive(Clone, Copy, Debug, PartialEq, Eq, Structural)]
pub enum Receive {
    /// Wait for a message, however long it takes.
    Block,
    /// Take a message if one is there, and go on if none is.
    Poll,
}

/// What the thread of a runner does once it has dealt with what it found in
/// its channel.
#[derive(Clone, Copy, Debug, PartialEq, Eq, Structural)]
pub enum Step {
    /// End the thread in good order.
    Stop,
    /// End the thread with an error.
    Fail,
    /// Pace the thread and tick the loops, then begin the next cycle.
    Tick,
    /// Begin the next cycle at once.
    Next,
}

/// How a cycle that begins in this state looks into the channel: a runner
/// that awaits work waits, a paced one only looks.
pub open spec fn receives(began: RunnerState) -> Receive {
    match began {
        RunnerState::AwaitingWork => Receive::Block,
        RunnerState::Paced => Receive::Poll,
    }
}

/// What follows in a cycle that began in this state, once the message is
/// dealt with: a stop or a lost channel ends the thread before any further
/// tick; otherwise a cycle that began paced paces and ticks, and one that
/// began awaiting work goes straight on to look at its loops anew.
pub open spec fn follows<T>(began: RunnerState, todo: RunnerAction<T>) -> Step {
    match todo {
        RunnerAction::Stop => Step::Stop,
        RunnerAction::Fail => Step::Fail,
        _ => match began {
            RunnerState::Paced => Step::Tick,
            RunnerState::AwaitingWork => Step::Next,
        },
    }
}

/// The side of a runner that lives on its worker thread: the loops that the
/// thread owns, and what it makes of the manager's messages.
pub struct Runner<T> {
    container: GameLoopContainer<T>,
}

impl<T> View for Runner<T> {
    type V = Seq<ContainerSlot<T>>;

    closed spec fn view(&self) -> Seq<ContainerSlot<T>> {
        self.container@
    }
}

/// What a message makes of the loops of a runner.
pub open spec fn received<T>(slots: Seq<ContainerSlot<T>>, inbound: Inbound<T>) -> Seq<
    ContainerSlot<T>,
> {
    match inbound {
        Inbound::Message(ToRunnerMsg::RequestLoop(kind)) => taken(slots, kind),
        Inbound::Message(ToRunnerMsg::SendLoop(kind, game_loop, relative_frequency)) => inserted(
            slots,
            kind,
            game_loop,
            relative_frequency,
        ),
        Inbound::Message(ToRunnerMsg::SetRelativeFrequency(kind, relative_frequency)) => rated(
            slots,
            kind,
            relative_frequency,
        ),
        _ => slots,
    }
}

/// What the thread has to do about what it found in its channel.
pub open spec fn action<T>(slots: Seq<ContainerSlot<T>>, inbound: Inbound<T>) -> RunnerAction<T> {
    match inbound {
        Inbound::Message(ToRunnerMsg::RequestLoop(kind)) => RunnerAction::Reply(
            FromRunnerMsg::SendLoop(slots[kind.slot()].task.unwrap()),
        ),
        Inbound::Message(ToRunnerMsg::Stop) => RunnerAction::Stop,
        Inbound::Disconnected => RunnerAction::Fail,
        _ => RunnerAction::Continue,
    }
}

/// Whether the manager keeps to the protocol with this message: it asks only
/// for a loop that lives here, and sends only a loop whose slot is empty.
pub open spec fn in_order<T>(slots: Seq<ContainerSlot<T>>, inbound: Inbound<T>) -> bool {
    match inbound {
        Inbound::Message(ToRunnerMsg::RequestLoop(kind)) => slots[kind.slot()].task.is_some(),
        Inbound::Message(ToRunnerMsg::SendLoop(kind, _, _)) => slots[kind.slot()].task.is_none(),
        _ => true,
    }
}

impl<T: GameLoop> Runner<T> {
    /// The loops are those of a container.
    pub open spec fn wf(&self) -> bool {
        slots_wf(self@)
    }

    /// The state that goes with the loops of a runner: it waits for work
    /// exactly when it has none.
    pub open spec fn state_of(slots: Seq<ContainerSlot<T>>) -> RunnerState {
        if forall|i: int| 0 <= i < NUM_GAME_LOOPS ==> (#[trigger] slots[i]).task.is_none() {
            RunnerState::AwaitingWork
        } else {
            RunnerState::Paced
        }
    }

    /// A runner without loops, which waits for work.
    pub fn new() -> (runner: Self)
        ensures
            runner.wf(),
            Self::state_of(runner@) == RunnerState::AwaitingWork,
            forall|i: int|
                0 <= i < NUM_GAME_LOOPS ==> #[trigger] runner@[i] == (ContainerSlot::<T> {
                    task: None,
                    relative_frequency: 0,
                    accumulator: 0,
                }),
    {
        Runner { container: GameLoopContainer::new() }
    }

    /// Whether the thread waits for its next message or only looks for one.
    pub fn state(&self) -> (state: RunnerState)
        requires
            self.wf(),
        ensures
            state == Self::state_of(self@),
    {
        if self.container.empty() {
            RunnerState::AwaitingWork
        } else {
            RunnerState::Paced
        }
    }

    /// How the thread looks into its channel in the cycle that begins now.
    pub fn receive(&self) -> (how: Receive)
        requires
            self.wf(),
        ensures
            how == receives(Self::state_of(self@)),
    {
        match self.state() {
            RunnerState::AwaitingWork => Receive::Block,
            RunnerState::Paced => Receive::Poll,
        }
    }

    /// What the thread does next in a cycle that began in the state `began`
    /// and in which `receive_msg` asked for `todo`. An answer in `todo` is
    /// sent either way.
    pub fn next_step(began: RunnerState, todo: &RunnerAction<T>) -> (step: Step)
        ensures
            step == follows(began, *todo),
    {
        match todo {
            RunnerAction::Stop => Step::Stop,
            RunnerAction::Fail => Step::Fail,
            _ => match began {
                RunnerState::Paced => Step::Tick,
                RunnerState::AwaitingWork => Step::Next,
            },
        }
    }

    /// Whether a loop of this kind lives here.
    pub fn contains(&self, kind: GameLoopKind) -> (held: bool)
        requires
            self.wf(),
        ensures
            held == self@[kind.slot()].task.is_some(),
    {
        self.container.contains(kind)
    }

    /// Takes in what the thread found in its channel and says what the thread
    /// has to do about it: a loop that is asked for leaves and goes into the
    /// answer, a loop that is sent moves in, a new rate is set, a stop or a
    /// lost channel ends the thread.
    pub fn receive_msg(&mut self, inbound: Inbound<T>) -> (todo: RunnerAction<T>)
        requires
            old(self).wf(),
            in_order(old(self)@, inbound),
        ensures
            final(self).wf(),
            final(self)@ == received(old(self)@, inbound),
            todo == action(old(self)@, inbound),
    {
        match inbound {
            Inbound::Message(msg) => match msg {
                ToRunnerMsg::Stop => RunnerAction::Stop,
                ToRunnerMsg::RequestLoop(kind) => RunnerAction::Reply(
                    FromRunnerMsg::SendLoop(self.container.get(kind).unwrap()),
                ),
                ToRunnerMsg::SendLoop(kind, game_loop, relative_frequency) => {
                    self.container.insert(kind, game_loop, relative_frequency);
                    RunnerAction::Continue
                },
                ToRunnerMsg::SetRelativeFrequency(kind, relative_frequency) => {
                    self.container.set_relative_frequency(kind, relative_frequency);
                    RunnerAction::Continue
                },
            },
            Inbound::Empty => RunnerAction::Continue,
            Inbound::Disconnected => RunnerAction::Fail,
        }
    }

    /// One tick of the loops that live here.
    pub fn run(&mut self) -> (report: RunReport)
        requires
            old(self).wf(),
        ensures
            final(self).wf(),
            tick(old(self)@, final(self)@, report),
    {
        self.container.run()
    }
}

} // verus!
