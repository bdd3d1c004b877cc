use vstd::prelude::*;

use crate::exec::loops::{GameLoopKind, NUM_GAME_LOOPS};
use crate::utils::frequency::{Frequency, FREQUENCY_ONE};

verus! {

/// The most worker threads that can exist: one per kind of loop.
pub const MAX_RUNNERS: usize = 3;

/// The thread id that stands for the main thread. The ids below it are those
/// of the worker threads.
pub const MAIN_THREAD_ID: usize = MAX_RUNNERS;

/// Where every kind of loop should live and how often it should run there:
/// one thread id and one rate per kind.
#[derive(Clone, Copy, Debug)]
pub struct Mode {
    thread_ids: [usize; 3],
    relative_frequencies: [Frequency; 3],
}

impl View for Mode {
    type V = Seq<(usize, Frequency)>;

    closed spec fn view(&self) -> Seq<(usize, Frequency)> {
        Seq::new(NUM_GAME_LOOPS as nat, |i: int| (self.thread_ids[i], self.relative_frequencies[i]))
    }
}

impl Mode {
    /// The thread and the rate that this mode gives to a kind.
    pub open spec fn entry(&self, kind: GameLoopKind) -> (usize, Frequency) {
        self@[kind.slot()]
    }

    /// There is one entry per kind, and every thread id is that of a worker
    /// or of the main thread.
    pub open spec fn wf(&self) -> bool {
        &&& self@.len() == NUM_GAME_LOOPS
        &&& forall|i: int| 0 <= i < NUM_GAME_LOOPS ==> (#[trigger] self@[i]).0 <= MAIN_THREAD_ID
    }

    /// The mode that keeps every kind on the main thread, once per tick.
    pub fn new() -> (mode: Self)
        ensures
            mode.wf(),
            forall|i: int|
                0 <= i < NUM_GAME_LOOPS ==> (#[trigger] mode@[i]).0 == MAIN_THREAD_ID && mode@[i].1@
                    == FREQUENCY_ONE,
    {
        let once = Frequency::from_parts(1, 0);
        Mode {
            thread_ids: [MAIN_THREAD_ID, MAIN_THREAD_ID, MAIN_THREAD_ID],
            relative_frequencies: [once, once, once],
        }
    }

    /// This mode with the entry of one kind replaced.
    pub fn set(
        self,
        kind: GameLoopKind,
        thread_id: usize,
        relative_frequency: Frequency,
    ) -> (mode: Self)
        requires
            self.wf(),
            thread_id <= MAIN_THREAD_ID,
        ensures
            mode.wf(),
            mode@ == self@.update(kind.slot(), (thread_id, relative_frequency)),
    {
        let mut mode = self;
        let index = kind.index();
        mode.thread_ids[index] = thread_id;
        mode.relative_frequencies[index] = relative_frequency;
        assert(mode@ =~= self@.update(kind.slot(), (thread_id, relative_frequency)));
        mode
    }

    /// This mode with the update loop on the given thread at the given rate.
    pub fn update(self, thread_id: usize, relative_frequency: Frequency) -> (mode: Self)
        requires
            self.wf(),
            thread_id <= MAIN_THREAD_ID,
        ensures
            mode.wf(),
            mode@ == self@.update(GameLoopKind::Update.slot(), (thread_id, relative_frequency)),
    {
        self.set(GameLoopKind::Update, thread_id, relative_frequency)
    }

    /// This mode with the render loop on the given thread at the given rate.
    pub fn render(self, thread_id: usize, relative_frequency: Frequency) -> (mode: Self)
        requires
            self.wf(),
            thread_id <= MAIN_THREAD_ID,
        ensures
            mode.wf(),
            mode@ == self@.update(GameLoopKind::Render.slot(), (thread_id, relative_frequency)),
    {
        self.set(GameLoopKind::Render, thread_id, relative_frequency)
    }

    /// This mode with the audio loop on the given thread at the given rate.
    pub fn audio(self, thread_id: usize, relative_frequency: Frequency) -> (mode: Self)
        requires
            self.wf(),
            thread_id <= MAIN_THREAD_ID,
        ensures
            mode.wf(),
            mode@ == self@.update(GameLoopKind::Audio.slot(), (thread_id, relative_frequency)),
    {
        self.set(GameLoopKind::Audio, thread_id, relative_frequency)
    }

    /// The thread and the rate that this mode gives to a kind.
    pub fn get(&self, kind: GameLoopKind) -> (entry: (usize, Frequency))
        ensures
            entry == self.entry(kind),
    {
        let index = kind.index();
        (self.thread_ids[index], self.relative_frequencies[index])
    }
}

} // verus!
