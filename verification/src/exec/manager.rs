use vstd::prelude::*;

use crate::exec::loops::{
    inserted, rated, slots_wf, taken, tick, ContainerSlot, GameLoop, GameLoopContainer,
    GameLoopKind, RunReport, NUM_GAME_LOOPS,
};
use crate::exec::mode::{Mode, MAIN_THREAD_ID, MAX_RUNNERS};
use crate::exec::msg::{ELGLMMsg, FromRunnerMsg, ToRunnerMsg};
use crate::utils::frequency::{Frequency, FREQUENCY_ONE};

verus! {

/// Something that is only kept so that it is dropped late.
pub trait DropData {
    fn do_nothing(&self) {
    }
}

/// What the main thread has to do for the manager before the manager can go
/// on with moving the loops to where a new mode wants them.
pub enum Directive<T> {
    /// Nothing: every loop is where the mode wants it.
    Done,
    /// Send the message to the runner of this thread, after creating the
    /// runner if `create` says so. Then call `resume`.
    Send { thread_id: usize, create: bool, msg: ToRunnerMsg<T> },
    /// Send the message to the runner of this thread and wait for its answer.
    /// Then call `deliver` with the answer.
    Request { thread_id: usize, msg: ToRunnerMsg<T> },
}

/// What the main thread has to do about a message from the scenes.
pub enum Control<T> {
    /// Carry out the directive and those that follow it.
    Reconcile(Directive<T>),
    /// Leave the event loop. The runners of the threads marked here exist and
    /// have to be told to stop.
    Exit { runners: [bool; 3] },
}

/// Keeps the loops of the main thread, knows which runners exist and on which
/// thread every loop lives, and works out, step by step, what has to be sent
/// to whom to get from the mode in force to a new one.
pub struct GameLoopManager<T> {
    runners: [bool; 3],
    loops: GameLoopContainer<T>,
    exec_mode: Mode,
    target: Mode,
    cursor: usize,
    awaiting: bool,
}

/// The state of a manager.
pub struct ManagerView<T> {
    /// Which worker threads have a runner.
    pub runners: Seq<bool>,
    /// The loops of the main thread.
    pub loops: Seq<ContainerSlot<T>>,
    /// The mode in force: where every loop lives, and at which rate it runs.
    pub exec_mode: Seq<(usize, Frequency)>,
    /// The mode that was asked for last.
    pub target: Seq<(usize, Frequency)>,
    /// The slot of the first kind that is not yet where the target wants it;
    /// the number of kinds when all are.
    pub cursor: int,
    /// Whether the loop of the kind at the cursor was asked back from its
    /// runner and has not arrived yet.
    pub awaiting: bool,
}

/// The kind that owns a slot.
pub open spec fn kind_at(slot: int) -> GameLoopKind {
    if slot == 0 {
        GameLoopKind::Update
    } else if slot == 1 {
        GameLoopKind::Render
    } else {
        GameLoopKind::Audio
    }
}

impl<T> ManagerView<T> {
    /// What holds of every manager between two calls: the tables have one
    /// entry per kind and name no thread that cannot exist; the main thread
    /// holds exactly the loops that are known to be there, at the rate on
    /// record; every worker thread that owns a loop has a runner; and a loop
    /// is only ever awaited from a worker thread that it is leaving.
    pub open spec fn wf(self) -> bool {
        &&& self.runners.len() == MAX_RUNNERS
        &&& slots_wf(self.loops)
        &&& self.exec_mode.len() == NUM_GAME_LOOPS
        &&& self.target.len() == NUM_GAME_LOOPS
        &&& 0 <= self.cursor <= NUM_GAME_LOOPS
        &&& forall|i: int|
            #![trigger self.exec_mode[i]]
            #![trigger self.loops[i]]
            0 <= i < NUM_GAME_LOOPS ==> {
                &&& self.exec_mode[i].0 <= MAIN_THREAD_ID
                &&& self.loops[i].task.is_some() <==> self.exec_mode[i].0 == MAIN_THREAD_ID
                &&& self.loops[i].task.is_some() ==> self.loops[i].relative_frequency
                    == self.exec_mode[i].1@
                &&& self.exec_mode[i].0 < MAIN_THREAD_ID ==> self.runners[self.exec_mode[i].0 as int]
            }
        &&& forall|i: int|
            0 <= i < NUM_GAME_LOOPS ==> (#[trigger] self.target[i]).0 <= MAIN_THREAD_ID
        &&& forall|i: int|
            0 <= i < self.cursor ==> #[trigger] self.exec_mode[i] == self.target[i]
        &&& self.awaiting ==> {
            &&& self.cursor < NUM_GAME_LOOPS
            &&& self.exec_mode[self.cursor].0 < MAIN_THREAD_ID
            &&& self.exec_mode[self.cursor].0 != self.target[self.cursor].0
        }
    }

    /// Whether no move of loops is under way.
    pub open spec fn idle(self) -> bool {
        self.cursor == NUM_GAME_LOOPS && !self.awaiting
    }

    /// The state when the kind at the cursor has become what the target wants,
    /// with these loops on the main thread and these runners.
    pub open spec fn settled(self, loops: Seq<ContainerSlot<T>>, runners: Seq<bool>) -> Self {
        ManagerView {
            runners,
            loops,
            exec_mode: self.exec_mode.update(self.cursor, self.target[self.cursor]),
            target: self.target,
            cursor: self.cursor + 1,
            awaiting: false,
        }
    }

    /// Hands a loop that the manager has in its hands to the thread that the
    /// target names for the kind at the cursor: into the container of the
    /// main thread, which needs no directive, or to a runner, which is
    /// created on the way if the thread has none yet.
    pub open spec fn sent(self, game_loop: T) -> (Self, Option<Directive<T>>) {
        let kind = kind_at(self.cursor);
        let (thread_id, relative_frequency) = self.target[self.cursor];
        if thread_id == MAIN_THREAD_ID {
            (
                self.settled(
                    inserted(self.loops, kind, game_loop, relative_frequency),
                    self.runners,
                ),
                None,
            )
        } else {
            (
                self.settled(self.loops, self.runners.update(thread_id as int, true)),
                Some(
                    Directive::Send {
                        thread_id,
                        create: !self.runners[thread_id as int],
                        msg: ToRunnerMsg::SendLoop(kind, game_loop, relative_frequency),
                    },
                ),
            )
        }
    }

    /// Brings the kind at the cursor from where it is to where the target
    /// wants it, as far as that can be done without an answer from a runner.
    /// A loop that stays on its thread only gets its new rate. A loop that
    /// leaves the main thread is taken out of the container and sent. A loop
    /// that leaves a worker thread is asked back, and the kind stays at the
    /// cursor until the loop arrives.
    pub open spec fn reconciled(self) -> (Self, Option<Directive<T>>) {
        let kind = kind_at(self.cursor);
        let (new_thread_id, new_relative_frequency) = self.target[self.cursor];
        let old_thread_id = self.exec_mode[self.cursor].0;
        if new_thread_id == old_thread_id {
            if new_thread_id == MAIN_THREAD_ID {
                (
                    self.settled(rated(self.loops, kind, new_relative_frequency), self.runners),
                    None,
                )
            } else {
                (
                    self.settled(self.loops, self.runners),
                    Some(
                        Directive::Send {
                            thread_id: new_thread_id,
                            create: false,
                            msg: ToRunnerMsg::SetRelativeFrequency(kind, new_relative_frequency),
                        },
                    ),
                )
            }
        } else if old_thread_id == MAIN_THREAD_ID {
            ManagerView { loops: taken(self.loops, kind), ..self }.sent(
                self.loops[self.cursor].task.unwrap(),
            )
        } else {
            (
                ManagerView { awaiting: true, ..self },
                Some(
                    Directive::Request {
                        thread_id: old_thread_id,
                        msg: ToRunnerMsg::RequestLoop(kind),
                    },
                ),
            )
        }
    }

    /// Goes through the kinds from the cursor on, in order, up to the first
    /// that needs the main thread to act, or to the end.
    pub open spec fn advanced(self) -> (Self, Directive<T>)
        decreases NUM_GAME_LOOPS - self.cursor,
    {
        if self.cursor >= NUM_GAME_LOOPS {
            (self, Directive::Done)
        } else {
            let (next, directive) = self.reconciled();
            match directive {
                Some(directive) => (next, directive),
                None => next.advanced(),
            }
        }
    }

    /// One kind brought to where the target wants it leaves the manager in
    /// order.
    pub proof fn lemma_reconciled_wf(self)
        requires
            self.wf(),
            !self.awaiting,
            self.cursor < NUM_GAME_LOOPS,
        ensures
            self.reconciled().0.wf(),
            self.reconciled().1.is_none() ==> {
                &&& self.reconciled().0.cursor == self.cursor + 1
                &&& !self.reconciled().0.awaiting
            },
    {
        let before = self;
        let kind = kind_at(before.cursor);
        let (new_thread_id, new_relative_frequency) = before.target[before.cursor];
        let old_thread_id = before.exec_mode[before.cursor].0;
        assert(before.target[before.cursor].0 <= MAIN_THREAD_ID);
        assert(before.exec_mode[before.cursor].0 <= MAIN_THREAD_ID);
        assert(before.loops[before.cursor].task.is_some() <==> old_thread_id == MAIN_THREAD_ID);
        new_relative_frequency.lemma_range();
        let after = before.reconciled().0;
        if new_thread_id != old_thread_id && old_thread_id == MAIN_THREAD_ID {
            ManagerView { loops: taken(before.loops, kind), ..before }.lemma_sent_wf(
                before.loops[before.cursor].task.unwrap(),
            );
        } else if new_thread_id == old_thread_id {
            assert forall|i: int|
                #![trigger after.exec_mode[i]]
                #![trigger after.loops[i]]
                0 <= i < NUM_GAME_LOOPS implies {
                &&& after.exec_mode[i].0 <= MAIN_THREAD_ID
                &&& after.loops[i].task.is_some() <==> after.exec_mode[i].0 == MAIN_THREAD_ID
                &&& after.loops[i].task.is_some() ==> after.loops[i].relative_frequency
                    == after.exec_mode[i].1@
                &&& after.exec_mode[i].0 < MAIN_THREAD_ID ==> after.runners[after.exec_mode[i].0 as int]
            } by {
                assert(before.exec_mode[i].0 <= MAIN_THREAD_ID);
                assert(before.loops[i].task.is_some() <==> before.exec_mode[i].0 == MAIN_THREAD_ID);
            }
            assert forall|i: int| 0 <= i < after.cursor implies #[trigger] after.exec_mode[i]
                == after.target[i] by {
                if i < before.cursor {
                    assert(before.exec_mode[i] == before.target[i]);
                }
            }
        }
    }

    /// A loop handed to the thread that the target names leaves the manager
    /// in order.
    pub proof fn lemma_sent_wf(self, game_loop: T)
        requires
            self.runners.len() == MAX_RUNNERS,
            slots_wf(self.loops),
            self.exec_mode.len() == NUM_GAME_LOOPS,
            self.target.len() == NUM_GAME_LOOPS,
            0 <= self.cursor < NUM_GAME_LOOPS,
            self.loops[self.cursor].task.is_none(),
            forall|i: int|
                0 <= i < NUM_GAME_LOOPS ==> (#[trigger] self.target[i]).0 <= MAIN_THREAD_ID,
            forall|i: int|
                0 <= i < self.cursor ==> #[trigger] self.exec_mode[i] == self.target[i],
            forall|i: int|
                #![trigger self.exec_mode[i]]
                #![trigger self.loops[i]]
                0 <= i < NUM_GAME_LOOPS ==> {
                    &&& self.exec_mode[i].0 <= MAIN_THREAD_ID
                    &&& i != self.cursor ==> (self.loops[i].task.is_some()
                        <==> self.exec_mode[i].0 == MAIN_THREAD_ID)
                    &&& self.loops[i].task.is_some() ==> self.loops[i].relative_frequency
                        == self.exec_mode[i].1@
                    &&& i != self.cursor && self.exec_mode[i].0 < MAIN_THREAD_ID
                        ==> self.runners[self.exec_mode[i].0 as int]
                },
        ensures
            self.sent(game_loop).0.wf(),
            self.sent(game_loop).0.cursor == self.cursor + 1,
            !self.sent(game_loop).0.awaiting,
    {
        let before = self;
        let after = before.sent(game_loop).0;
        let (thread_id, relative_frequency) = before.target[before.cursor];
        assert(before.target[before.cursor].0 <= MAIN_THREAD_ID);
        relative_frequency.lemma_range();
        assert forall|i: int|
            #![trigger after.exec_mode[i]]
            #![trigger after.loops[i]]
            0 <= i < NUM_GAME_LOOPS implies {
            &&& after.exec_mode[i].0 <= MAIN_THREAD_ID
            &&& after.loops[i].task.is_some() <==> after.exec_mode[i].0 == MAIN_THREAD_ID
            &&& after.loops[i].task.is_some() ==> after.loops[i].relative_frequency
                == after.exec_mode[i].1@
            &&& after.exec_mode[i].0 < MAIN_THREAD_ID ==> after.runners[after.exec_mode[i].0 as int]
        } by {
            assert(before.exec_mode[i].0 <= MAIN_THREAD_ID);
            if i != before.cursor {
                assert(before.loops[i].task.is_some() <==> before.exec_mode[i].0 == MAIN_THREAD_ID);
            }
        }
        assert forall|i: int| 0 <= i < after.cursor implies #[trigger] after.exec_mode[i]
            == after.target[i] by {
            if i < before.cursor {
                assert(before.exec_mode[i] == before.target[i]);
            }
        }
    }

    /// When nothing is left to do, the target is the mode in force and no
    /// move is under way.
    pub proof fn lemma_done_is_target(self)
        requires
            self.wf(),
            !self.awaiting,
        ensures
            self.advanced().1 is Done ==> self.advanced().0.idle() && self.advanced().0.exec_mode
                == self.target,
            self.advanced().0.target == self.target,
        decreases NUM_GAME_LOOPS - self.cursor,
    {
        if self.cursor >= NUM_GAME_LOOPS {
            assert(self.exec_mode =~= self.target);
        } else {
            let (next, directive) = self.reconciled();
            if directive.is_none() {
                self.lemma_reconciled_wf();
                next.lemma_done_is_target();
            }
        }
    }

    /// The manager awaits a loop exactly when the directive that it gave is a
    /// request.
    pub proof fn lemma_request_is_awaiting(self)
        requires
            self.wf(),
            !self.awaiting,
        ensures
            self.advanced().1 is Request <==> self.advanced().0.awaiting,
        decreases NUM_GAME_LOOPS - self.cursor,
    {
        if self.cursor < NUM_GAME_LOOPS {
            let (next, directive) = self.reconciled();
            self.lemma_reconciled_wf();
            assert(self.target[self.cursor].0 <= MAIN_THREAD_ID);
            if directive.is_none() {
                next.lemma_request_is_awaiting();
            }
        }
    }

    /// Going on disturbs nothing that it has no business with. Every runner
    /// that exists goes on existing. A kind that was settled before, or that
    /// is not reached, keeps its slot on the main thread as it is. A kind
    /// that is reached and stays on the main thread keeps its loop and its
    /// accumulator, and runs at the rate of the target from now on.
    pub proof fn lemma_advanced_keeps(self, i: int)
        requires
            self.wf(),
            !self.awaiting,
            0 <= i < NUM_GAME_LOOPS,
        ensures
            ({
                let after = self.advanced().0;
                &&& forall|t: int|
                    0 <= t < MAX_RUNNERS && self.runners[t] ==> #[trigger] after.runners[t]
                &&& self.cursor <= after.cursor
                &&& i < self.cursor || i >= after.cursor ==> after.loops[i] == self.loops[i]
                &&& i >= after.cursor ==> after.exec_mode[i] == self.exec_mode[i]
                &&& self.cursor <= i < after.cursor && self.exec_mode[i].0 == MAIN_THREAD_ID
                    && self.target[i].0 == MAIN_THREAD_ID ==> after.loops[i] == (ContainerSlot {
                    relative_frequency: self.target[i].1@,
                    ..self.loops[i]
                })
            }),
        decreases NUM_GAME_LOOPS - self.cursor,
    {
        if self.cursor < NUM_GAME_LOOPS {
            let (next, directive) = self.reconciled();
            self.lemma_reconciled_wf();
            assert(self.target[self.cursor].0 <= MAIN_THREAD_ID);
            assert(self.exec_mode[self.cursor].0 <= MAIN_THREAD_ID);
            if directive.is_none() {
                next.lemma_advanced_keeps(i);
            }
        }
    }

    /// Takes in the loop that was awaited and goes on from there.
    pub open spec fn delivered(self, game_loop: T) -> (Self, Directive<T>) {
        let (next, directive) = self.sent(game_loop);
        match directive {
            Some(directive) => (next, directive),
            None => next.advanced(),
        }
    }

    /// A loop that comes back and is to live on the main thread moves into
    /// its slot there with its rate from the target and no credit from before;
    /// one that is to live on another worker thread is sent on as it came.
    /// Either way every runner that exists goes on existing, and the slots of
    /// the kinds that were settled before stay as they are.
    pub proof fn lemma_delivered_keeps(self, game_loop: T, i: int)
        requires
            self.wf(),
            self.awaiting,
            0 <= i < NUM_GAME_LOOPS,
        ensures
            ({
                let (after, directive) = self.delivered(game_loop);
                let (thread_id, relative_frequency) = self.target[self.cursor];
                &&& forall|t: int|
                    0 <= t < MAX_RUNNERS && self.runners[t] ==> #[trigger] after.runners[t]
                &&& self.cursor < after.cursor
                &&& i < self.cursor || i >= after.cursor ==> after.loops[i] == self.loops[i]
                &&& i == self.cursor && thread_id == MAIN_THREAD_ID ==> after.loops[i]
                    == (ContainerSlot {
                    task: Some(game_loop),
                    relative_frequency: relative_frequency@,
                    accumulator: 0,
                })
                &&& thread_id != MAIN_THREAD_ID ==> directive == (Directive::Send {
                    thread_id,
                    create: !self.runners[thread_id as int],
                    msg: ToRunnerMsg::SendLoop(kind_at(self.cursor), game_loop, relative_frequency),
                })
            }),
    {
        let (next, directive) = self.sent(game_loop);
        assert(self.loops[self.cursor].task.is_some() <==> self.exec_mode[self.cursor].0
            == MAIN_THREAD_ID);
        assert(self.target[self.cursor].0 <= MAIN_THREAD_ID);
        self.lemma_sent_wf(game_loop);
        if directive.is_none() {
            next.lemma_advanced_keeps(i);
            assert(kind_at(self.cursor).slot() == self.cursor);
        }
    }

    /// Starts on a new target from the first kind.
    pub open spec fn retargeted(self, target: Seq<(usize, Frequency)>) -> Self {
        ManagerView { target, cursor: 0, awaiting: false, ..self }
    }
}

impl<T> View for GameLoopManager<T> {
    type V = ManagerView<T>;

    closed spec fn view(&self) -> ManagerView<T> {
        ManagerView {
            runners: self.runners@,
            loops: self.loops@,
            exec_mode: self.exec_mode@,
            target: self.target@,
            cursor: self.cursor as int,
            awaiting: self.awaiting,
        }
    }
}

impl<T: GameLoop> GameLoopManager<T> {
    /// A manager whose main thread owns all three loops, each once per tick,
    /// and which has no runner yet.
    pub fn new(update_loop: T, render_loop: T, audio_loop: T) -> (manager: Self)
        ensures
            manager@.wf(),
            manager@.idle(),
            manager@.runners == seq![false, false, false],
            manager@.loops[0] == (ContainerSlot {
                task: Some(update_loop),
                relative_frequency: FREQUENCY_ONE as int,
                accumulator: 0,
            }),
            manager@.loops[1] == (ContainerSlot {
                task: Some(render_loop),
                relative_frequency: FREQUENCY_ONE as int,
                accumulator: 0,
            }),
            manager@.loops[2] == (ContainerSlot {
                task: Some(audio_loop),
                relative_frequency: FREQUENCY_ONE as int,
                accumulator: 0,
            }),
            forall|i: int|
                0 <= i < NUM_GAME_LOOPS ==> (#[trigger] manager@.exec_mode[i]).0 == MAIN_THREAD_ID
                    && manager@.exec_mode[i].1@ == FREQUENCY_ONE,
            manager@.target == manager@.exec_mode,
    {
        let once = Frequency::from_parts(1, 0);
        let mut loops = GameLoopContainer::new();
        loops.insert(GameLoopKind::Update, update_loop, once);
        loops.insert(GameLoopKind::Render, render_loop, once);
        loops.insert(GameLoopKind::Audio, audio_loop, once);
        let mode = Mode::new();
        let manager = GameLoopManager {
            runners: [false, false, false],
            exec_mode: mode,
            target: mode,
            loops,
            cursor: NUM_GAME_LOOPS,
            awaiting: false,
        };
        assert(manager@.runners =~= seq![false, false, false]);
        assert(manager@.target =~= manager@.exec_mode);
        manager
    }

    /// Whether the worker thread has a runner.
    pub fn has_runner(&self, thread_id: usize) -> (exists: bool)
        requires
            thread_id < MAX_RUNNERS,
        ensures
            exists == self@.runners[thread_id as int],
    {
        self.runners[thread_id]
    }

    /// The mode in force.
    pub fn exec_mode(&self) -> (mode: Mode)
        ensures
            mode@ == self@.exec_mode,
    {
        self.exec_mode
    }

    /// Whether no move of loops is under way.
    pub fn idle(&self) -> (idle: bool)
        ensures
            idle == self@.idle(),
    {
        self.cursor == NUM_GAME_LOOPS && !self.awaiting
    }

    /// Whether a loop was asked back from its runner and has not been
    /// delivered yet.
    pub fn awaiting(&self) -> (awaiting: bool)
        ensures
            awaiting == self@.awaiting,
    {
        self.awaiting
    }

    /// Marks the worker thread as having a runner and says whether the runner
    /// has yet to be created.
    fn get_or_create_runner(&mut self, thread_id: usize) -> (create: bool)
        requires
            thread_id < MAX_RUNNERS,
        ensures
            create == !old(self)@.runners[thread_id as int],
            final(self)@ == (ManagerView {
                runners: old(self)@.runners.update(thread_id as int, true),
                ..old(self)@
            }),
    {
        let create = !self.runners[thread_id];
        self.runners[thread_id] = true;
        assert(self@.runners =~= old(self)@.runners.update(thread_id as int, true));
        create
    }

    /// Takes the loop of a kind out of the container of the main thread, or
    /// says whom to ask for it.
    fn request_loop(&mut self, kind: GameLoopKind) -> (got: Result<T, Directive<T>>)
        requires
            old(self)@.wf(),
            old(self)@.cursor == kind.slot(),
            !old(self)@.awaiting,
        ensures
            old(self)@.exec_mode[kind.slot()].0 == MAIN_THREAD_ID ==> {
                &&& got == Ok::<T, Directive<T>>(old(self)@.loops[kind.slot()].task.unwrap())
                &&& final(self)@ == (ManagerView {
                    loops: taken(old(self)@.loops, kind),
                    ..old(self)@
                })
            },
            old(self)@.exec_mode[kind.slot()].0 != MAIN_THREAD_ID ==> {
                &&& got == Err::<T, Directive<T>>(
                    Directive::Request {
                        thread_id: old(self)@.exec_mode[kind.slot()].0,
                        msg: ToRunnerMsg::RequestLoop(kind),
                    },
                )
                &&& final(self)@ == (ManagerView { awaiting: true, ..old(self)@ })
            },
    {
        let (thread_id, _) = self.exec_mode.get(kind);
        if thread_id == MAIN_THREAD_ID {
            assert(self@.loops[kind.slot()].task.is_some());
            Ok(self.loops.get(kind).unwrap())
        } else {
            self.awaiting = true;
            Err(Directive::Request { thread_id, msg: ToRunnerMsg::RequestLoop(kind) })
        }
    }

    /// Hands a loop to the thread that the target names for its kind, and
    /// records the kind as settled.
    fn send_loop(
        &mut self,
        kind: GameLoopKind,
        game_loop: T,
        thread_id: usize,
        relative_frequency: Frequency,
    ) -> (directive: Option<Directive<T>>)
        requires
            old(self)@.cursor == kind.slot(),
            old(self)@.target.len() == NUM_GAME_LOOPS,
            old(self)@.exec_mode.len() == NUM_GAME_LOOPS,
            old(self)@.runners.len() == MAX_RUNNERS,
            old(self)@.target[kind.slot()] == (thread_id, relative_frequency),
            thread_id <= MAIN_THREAD_ID,
            slots_wf(old(self)@.loops),
            old(self)@.loops[kind.slot()].task.is_none(),
            forall|i: int|
                0 <= i < NUM_GAME_LOOPS ==> (#[trigger] old(self)@.exec_mode[i]).0 <= MAIN_THREAD_ID,
        ensures
            (final(self)@, directive) == old(self)@.sent(game_loop),
    {
        let directive = if thread_id == MAIN_THREAD_ID {
            self.loops.insert(kind, game_loop, relative_frequency);
            None
        } else {
            let create = self.get_or_create_runner(thread_id);
            Some(
                Directive::Send {
                    thread_id,
                    create,
                    msg: ToRunnerMsg::SendLoop(kind, game_loop, relative_frequency),
                },
            )
        };
        self.settle(kind, thread_id, relative_frequency);
        directive
    }

    /// Gives the loop of a kind that stays on its thread its new rate, and
    /// records the kind as settled.
    fn set_relative_frequency(
        &mut self,
        kind: GameLoopKind,
        thread_id: usize,
        relative_frequency: Frequency,
    ) -> (directive: Option<Directive<T>>)
        requires
            old(self)@.wf(),
            old(self)@.cursor == kind.slot(),
            !old(self)@.awaiting,
            old(self)@.target[kind.slot()] == (thread_id, relative_frequency),
            old(self)@.exec_mode[kind.slot()].0 == thread_id,
        ensures
            (final(self)@, directive) == old(self)@.reconciled(),
    {
        let directive = if thread_id == MAIN_THREAD_ID {
            self.loops.set_relative_frequency(kind, relative_frequency);
            None
        } else {
            Some(
                Directive::Send {
                    thread_id,
                    create: false,
                    msg: ToRunnerMsg::SetRelativeFrequency(kind, relative_frequency),
                },
            )
        };
        self.settle(kind, thread_id, relative_frequency);
        directive
    }

    /// Records that the kind at the cursor is where the target wants it.
    fn settle(&mut self, kind: GameLoopKind, thread_id: usize, relative_frequency: Frequency)
        requires
            old(self)@.cursor == kind.slot(),
            old(self)@.target.len() == NUM_GAME_LOOPS,
            old(self)@.exec_mode.len() == NUM_GAME_LOOPS,
            old(self)@.target[kind.slot()] == (thread_id, relative_frequency),
            thread_id <= MAIN_THREAD_ID,
            forall|i: int|
                0 <= i < NUM_GAME_LOOPS ==> (#[trigger] old(self)@.exec_mode[i]).0 <= MAIN_THREAD_ID,
        ensures
            final(self)@ == old(self)@.settled(old(self)@.loops, old(self)@.runners),
    {
        self.exec_mode = self.exec_mode.set(kind, thread_id, relative_frequency);
        self.cursor = self.cursor + 1;
        self.awaiting = false;
    }

    /// Goes through the kinds from the cursor on, in order, up to the first
    /// that needs the main thread to act, or to the end.
    fn advance(&mut self) -> (directive: Directive<T>)
        requires
            old(self)@.wf(),
            !old(self)@.awaiting,
        ensures
            final(self)@.wf(),
            (final(self)@, directive) == old(self)@.advanced(),
    {
        while self.cursor < NUM_GAME_LOOPS
            invariant
                self@.wf(),
                !self@.awaiting,
                self@.advanced() == old(self)@.advanced(),
            decreases NUM_GAME_LOOPS - self.cursor,
        {
            let ghost before = self@;
            let kind = GameLoopKind::from_index(self.cursor);
            assert(kind == kind_at(before.cursor));
            let (new_thread_id, new_relative_frequency) = self.target.get(kind);
            let (old_thread_id, _) = self.exec_mode.get(kind);
            let directive = if new_thread_id != old_thread_id {
                match self.request_loop(kind) {
                    Ok(game_loop) => self.send_loop(
                        kind,
                        game_loop,
                        new_thread_id,
                        new_relative_frequency,
                    ),
                    Err(directive) => Some(directive),
                }
            } else {
                self.set_relative_frequency(kind, new_thread_id, new_relative_frequency)
            };
            assert((self@, directive) == before.reconciled());
            proof {
                before.lemma_reconciled_wf();
            }
            match directive {
                Some(directive) => {
                    return directive;
                },
                None => {},
            }
        }
        Directive::Done
    }

    /// Starts to move the loops to where the mode wants them, kind by kind in
    /// order, and goes on up to the first kind that needs the main thread to
    /// act.
    pub fn set_mode(&mut self, new_mode: Mode) -> (directive: Directive<T>)
        requires
            old(self)@.wf(),
            old(self)@.idle(),
            new_mode.wf(),
        ensures
            final(self)@.wf(),
            (final(self)@, directive) == old(self)@.retargeted(new_mode@).advanced(),
            final(self)@.target == new_mode@,
            directive is Done ==> final(self)@.idle() && final(self)@.exec_mode == new_mode@,
            directive is Request <==> final(self)@.awaiting,
    {
        self.target = new_mode;
        self.cursor = 0;
        assert(self@ == old(self)@.retargeted(new_mode@));
        proof {
            self@.lemma_done_is_target();
            self@.lemma_request_is_awaiting();
        }
        self.advance()
    }

    /// Goes on after the main thread has sent what the last directive told it
    /// to send.
    pub fn resume(&mut self) -> (directive: Directive<T>)
        requires
            old(self)@.wf(),
            !old(self)@.awaiting,
        ensures
            final(self)@.wf(),
            (final(self)@, directive) == old(self)@.advanced(),
            final(self)@.target == old(self)@.target,
            directive is Done ==> final(self)@.idle() && final(self)@.exec_mode == old(
                self,
            )@.target,
            directive is Request <==> final(self)@.awaiting,
    {
        proof {
            self@.lemma_done_is_target();
            self@.lemma_request_is_awaiting();
        }
        self.advance()
    }

    /// Takes in the answer to the last request, hands the loop in it to the
    /// thread that the target names, and goes on.
    pub fn deliver(&mut self, reply: FromRunnerMsg<T>) -> (directive: Directive<T>)
        requires
            old(self)@.wf(),
            old(self)@.awaiting,
        ensures
            final(self)@.wf(),
            (final(self)@, directive) == old(self)@.delivered(reply->0),
            final(self)@.target == old(self)@.target,
            directive is Done ==> final(self)@.idle() && final(self)@.exec_mode == old(
                self,
            )@.target,
            directive is Request <==> final(self)@.awaiting,
    {
        let game_loop = reply.into_loop();
        let kind = GameLoopKind::from_index(self.cursor);
        assert(kind == kind_at(self@.cursor));
        let (thread_id, relative_frequency) = self.target.get(kind);
        proof {
            assert(self@.exec_mode[self@.cursor].0 != MAIN_THREAD_ID);
            assert(self@.loops[self@.cursor].task.is_none());
            self@.lemma_sent_wf(game_loop);
        }
        match self.send_loop(kind, game_loop, thread_id, relative_frequency) {
            Some(directive) => directive,
            None => {
                proof {
                    self@.lemma_done_is_target();
                    self@.lemma_request_is_awaiting();
                }
                self.advance()
            },
        }
    }

    /// What the main thread has to do about a message from the scenes: start
    /// on the mode that it carries, or leave the event loop.
    pub fn handle_msg(&mut self, msg: ELGLMMsg) -> (control: Control<T>)
        requires
            old(self)@.wf(),
            old(self)@.idle(),
            msg matches ELGLMMsg::SetMode(mode) ==> mode.wf(),
        ensures
            final(self)@.wf(),
            match msg {
                ELGLMMsg::SetMode(mode) => {
                    &&& control matches Control::Reconcile(directive)
                    &&& (final(self)@, directive) == old(self)@.retargeted(mode@).advanced()
                    &&& final(self)@.target == mode@
                    &&& directive is Done ==> final(self)@.idle() && final(self)@.exec_mode
                        == mode@
                    &&& directive is Request <==> final(self)@.awaiting
                },
                ELGLMMsg::Stop => {
                    &&& control matches Control::Exit { runners }
                    &&& runners@ == old(self)@.runners
                    &&& final(self)@ == old(self)@
                },
            },
    {
        match msg {
            ELGLMMsg::SetMode(mode) => Control::Reconcile(self.set_mode(mode)),
            ELGLMMsg::Stop => Control::Exit { runners: self.runners },
        }
    }

    /// One tick of the loops that live on the main thread.
    pub fn run_loops(&mut self) -> (report: RunReport)
        requires
            old(self)@.wf(),
        ensures
            final(self)@.wf(),
            tick(old(self)@.loops, final(self)@.loops, report),
            final(self)@ == (ManagerView { loops: final(self)@.loops, ..old(self)@ }),
    {
        let report = self.loops.run();
        proof {
            let before = old(self)@;
            let after = self@;
            assert forall|i: int|
                #![trigger after.exec_mode[i]]
                #![trigger after.loops[i]]
                0 <= i < NUM_GAME_LOOPS implies {
                &&& after.loops[i].task.is_some() <==> before.loops[i].task.is_some()
                &&& after.loops[i].relative_frequency == before.loops[i].relative_frequency
            } by {
                assert(before.exec_mode[i].0 <= MAIN_THREAD_ID);
            }
            assert forall|i: int|
                #![trigger after.exec_mode[i]]
                #![trigger after.loops[i]]
                0 <= i < NUM_GAME_LOOPS implies {
                &&& after.exec_mode[i].0 <= MAIN_THREAD_ID
                &&& after.loops[i].task.is_some() <==> after.exec_mode[i].0 == MAIN_THREAD_ID
                &&& after.loops[i].task.is_some() ==> after.loops[i].relative_frequency
                    == after.exec_mode[i].1@
                &&& after.exec_mode[i].0 < MAIN_THREAD_ID ==> after.runners[after.exec_mode[i].0 as int]
            } by {
                assert(before.exec_mode[i].0 <= MAIN_THREAD_ID);
                assert(before.loops[i].task.is_some() <==> before.exec_mode[i].0 == MAIN_THREAD_ID);
            }
        }
        report
    }
}

} // verus!
