use vstd::prelude::*;

use crate::exec::credit::{accumulator_after, due, executions, lemma_settled_range, settled};
use crate::utils::frequency::{Frequency, FREQUENCY_ONE};

verus! {

/// The number of loop kinds, and so of slots in every per-kind table.
pub const NUM_GAME_LOOPS: usize = 3;

/// The loops that the scheduler knows.
#[derive(Clone, Copy, Debug, Hash, PartialEq, Eq, Structural)]
pub enum GameLoopKind {
    Update,
    Render,
    Audio,
}

impl GameLoopKind {
    /// The slot of this kind in every per-kind table.
    pub open spec fn slot(&self) -> int {
        match self {
            GameLoopKind::Update => 0,
            GameLoopKind::Render => 1,
            GameLoopKind::Audio => 2,
        }
    }

    /// The slot of this kind in every per-kind table.
    pub fn index(&self) -> (index: usize)
        ensures
            index == self.slot(),
            index < NUM_GAME_LOOPS,
    {
        match self {
            GameLoopKind::Update => 0,
            GameLoopKind::Render => 1,
            GameLoopKind::Audio => 2,
        }
    }

    /// The kind that owns a slot.
    pub fn from_index(index: usize) -> (kind: GameLoopKind)
        requires
            index < NUM_GAME_LOOPS,
        ensures
            kind.slot() == index,
    {
        if index == 0 {
            GameLoopKind::Update
        } else if index == 1 {
            GameLoopKind::Render
        } else {
            GameLoopKind::Audio
        }
    }
}

/// A unit of recurring work. The scheduler knows nothing of it but that it can
/// be executed once more.
pub trait GameLoop: Send {
    /// Does the work once and says whether it succeeded. A loop that has no
    /// work of its own succeeds.
    fn run(&mut self) -> (ok: bool)
        default_ensures
            ok,
    {
        true
    }
}

/// What one slot of a container holds.
pub struct ContainerSlot<T> {
    /// The loop that lives here, if any.
    pub task: Option<T>,
    /// The executions per tick that the loop is owed.
    pub relative_frequency: int,
    /// The credit carried over from the ticks so far.
    pub accumulator: int,
}

impl<T> ContainerSlot<T> {
    /// The credit with which the next tick of this slot starts.
    pub open spec fn credit(self) -> int {
        self.accumulator + self.relative_frequency
    }

    /// The slot after `executed` executions in one tick.
    pub open spec fn ran(self, task: Option<T>, executed: int) -> ContainerSlot<T> {
        ContainerSlot {
            task,
            relative_frequency: self.relative_frequency,
            accumulator: self.credit() - executed * FREQUENCY_ONE,
        }
    }
}

/// The slots of a container after a loop came to live in one of them: it
/// gets its rate, and starts with no credit.
pub open spec fn inserted<T>(
    slots: Seq<ContainerSlot<T>>,
    kind: GameLoopKind,
    game_loop: T,
    relative_frequency: Frequency,
) -> Seq<ContainerSlot<T>> {
    slots.update(
        kind.slot(),
        ContainerSlot {
            task: Some(game_loop),
            relative_frequency: relative_frequency@,
            accumulator: 0,
        },
    )
}

/// The slots of a container after the loop of one kind left.
pub open spec fn taken<T>(slots: Seq<ContainerSlot<T>>, kind: GameLoopKind) -> Seq<
    ContainerSlot<T>,
> {
    slots.update(kind.slot(), ContainerSlot { task: None, ..slots[kind.slot()] })
}

/// The slots of a container after the rate of one kind changed.
pub open spec fn rated<T>(
    slots: Seq<ContainerSlot<T>>,
    kind: GameLoopKind,
    relative_frequency: Frequency,
) -> Seq<ContainerSlot<T>> {
    slots.update(
        kind.slot(),
        ContainerSlot { relative_frequency: relative_frequency@, ..slots[kind.slot()] },
    )
}

/// A loop that moves from its container to another and back, at one rate,
/// is the same loop at the same rate in the same slot afterwards, and nothing
/// else in either container has changed. It is never in both containers and
/// never lost: while it is with one, the slot of the other is empty. Each
/// time it moves in, it starts with an accumulator of zero, so that what it
/// ran or was owed before the move does not count after it.
pub proof fn lemma_relocation_round_trip<T>(
    home: Seq<ContainerSlot<T>>,
    away: Seq<ContainerSlot<T>>,
    kind: GameLoopKind,
    relative_frequency: Frequency,
)
    requires
        slots_wf(home),
        slots_wf(away),
        home[kind.slot()].task.is_some(),
        away[kind.slot()].task.is_none(),
    ensures
        ({
            let game_loop = home[kind.slot()].task.unwrap();
            let fresh = ContainerSlot {
                task: Some(game_loop),
                relative_frequency: relative_frequency@,
                accumulator: 0,
            };
            let left = taken(home, kind);
            let arrived = inserted(away, kind, game_loop, relative_frequency);
            let left_again = taken(arrived, kind);
            let back = inserted(left, kind, arrived[kind.slot()].task.unwrap(), relative_frequency);
            &&& left[kind.slot()].task.is_none()
            &&& arrived[kind.slot()] == fresh
            &&& arrived == away.update(kind.slot(), fresh)
            &&& left_again[kind.slot()].task.is_none()
            &&& left_again == away.update(kind.slot(), ContainerSlot { task: None, ..fresh })
            &&& back == home.update(kind.slot(), fresh)
        }),
{
    let game_loop = home[kind.slot()].task.unwrap();
    let fresh = ContainerSlot {
        task: Some(game_loop),
        relative_frequency: relative_frequency@,
        accumulator: 0,
    };
    let left = taken(home, kind);
    let arrived = inserted(away, kind, game_loop, relative_frequency);
    let left_again = taken(arrived, kind);
    let back = inserted(left, kind, arrived[kind.slot()].task.unwrap(), relative_frequency);
    assert(left_again =~= away.update(kind.slot(), ContainerSlot { task: None, ..fresh }));
    assert(back =~= home.update(kind.slot(), fresh));
}

/// What holds of the slots of every container: there is one per kind, every
/// accumulator lies within one execution below zero, which is what a fresh
/// slot holds and what every tick leaves, and every rate is one that
/// `Frequency` can hold.
pub open spec fn slots_wf<T>(slots: Seq<ContainerSlot<T>>) -> bool {
    &&& slots.len() == NUM_GAME_LOOPS
    &&& forall|i: int|
        0 <= i < NUM_GAME_LOOPS ==> {
            &&& -FREQUENCY_ONE <= (#[trigger] slots[i]).accumulator <= 0
            &&& 0 <= slots[i].relative_frequency <= u64::MAX
        }
}

/// What a tick leaves of a slot that it went through without failure: an
/// empty slot as it was, a loop run as often as was due.
pub open spec fn ticked<T>(slot: ContainerSlot<T>, after: ContainerSlot<T>, executed: int) -> bool {
    if slot.task.is_some() {
        &&& executed == due(slot.credit())
        &&& after.task.is_some()
        &&& after == slot.ran(after.task, executed)
    } else {
        &&& executed == 0
        &&& after == slot
    }
}

/// What one tick makes of the slots of a container. Without a failure every
/// slot is ticked. A failed execution ends the tick at once: the kinds before
/// it have run in full, the failed kind has run at least once and at most as
/// often as was due and is owed nothing more for this tick, and the kinds
/// after it wait untouched for the next tick.
pub open spec fn tick<T>(
    before: Seq<ContainerSlot<T>>,
    after: Seq<ContainerSlot<T>>,
    report: RunReport,
) -> bool {
    match report.failed {
        None => forall|i: int|
            #![trigger before[i]]
            #![trigger after[i]]
            0 <= i < NUM_GAME_LOOPS ==> ticked(before[i], after[i], report.executed[i] as int),
        Some(kind) => {
            &&& forall|i: int|
                #![trigger before[i]]
                #![trigger after[i]]
                0 <= i < kind.slot() ==> ticked(before[i], after[i], report.executed[i] as int)
            &&& before[kind.slot()].task.is_some()
            &&& after[kind.slot()].task.is_some()
            &&& 1 <= report.executed[kind.slot()] <= due(before[kind.slot()].credit())
            &&& after[kind.slot()] == before[kind.slot()].ran(
                after[kind.slot()].task,
                due(before[kind.slot()].credit()) as int,
            )
            &&& forall|i: int|
                #![trigger before[i]]
                #![trigger after[i]]
                kind.slot() < i < NUM_GAME_LOOPS ==> {
                    &&& after[i] == before[i]
                    &&& report.executed[i] == 0
                }
        },
    }
}

/// The executions of one kind that a run of reports counts.
pub open spec fn executed_in(reports: Seq<RunReport>, kind: GameLoopKind) -> nat
    decreases reports.len(),
{
    if reports.len() == 0 {
        0
    } else {
        reports[0].executed[kind.slot()] as nat + executed_in(reports.skip(1), kind)
    }
}

/// A run of ticks without failure, with nothing else done to the container in
/// between, executes a loop that lives there as often as its rate and the
/// accumulator that it started from say, and leaves the accumulator that they
/// say. `states[j]` holds the slots before tick `j`, `states[j + 1]` those
/// after it.
pub proof fn lemma_run_of_ticks<T>(
    states: Seq<Seq<ContainerSlot<T>>>,
    reports: Seq<RunReport>,
    kind: GameLoopKind,
)
    requires
        states.len() == reports.len() + 1,
        forall|j: int|
            0 <= j < reports.len() ==> tick(states[j], states[j + 1], #[trigger] reports[j])
                && reports[j].failed.is_none(),
        states[0][kind.slot()].task.is_some(),
    ensures
        ({
            let first = states[0][kind.slot()];
            let last = states[reports.len() as int][kind.slot()];
            &&& last.task.is_some()
            &&& last.relative_frequency == first.relative_frequency
            &&& executed_in(reports, kind) == executions(
                first.accumulator,
                first.relative_frequency,
                reports.len(),
            )
            &&& last.accumulator == accumulator_after(
                first.accumulator,
                first.relative_frequency,
                reports.len(),
            )
        }),
    decreases reports.len(),
{
    if reports.len() > 0 {
        let first = states[0][kind.slot()];
        let second = states[1][kind.slot()];
        assert(tick(states[0], states[1], reports[0]) && reports[0].failed.is_none());
        assert(ticked(first, second, reports[0].executed[kind.slot()] as int));
        let later_states = states.skip(1);
        let later_reports = reports.skip(1);
        assert forall|j: int| 0 <= j < later_reports.len() implies tick(
            later_states[j],
            later_states[j + 1],
            #[trigger] later_reports[j],
        ) && later_reports[j].failed.is_none() by {
            assert(tick(states[j + 1], states[j + 2], reports[j + 1])
                && reports[j + 1].failed.is_none());
        }
        lemma_run_of_ticks(later_states, later_reports, kind);
        assert(later_states[later_reports.len() as int] == states[reports.len() as int]);
    }
}

/// What a tick did.
pub struct RunReport {
    /// How often each kind was executed, the failed execution included.
    pub executed: [u64; 3],
    /// The kind whose execution failed and ended the tick early.
    pub failed: Option<GameLoopKind>,
}

/// The loops that one thread owns, one slot per kind, each with its rate and
/// the credit that paces it.
pub struct GameLoopContainer<T> {
    data: [Option<T>; 3],
    relative_frequencies: [Frequency; 3],
    timer: [i64; 3],
}

impl<T> View for GameLoopContainer<T> {
    type V = Seq<ContainerSlot<T>>;

    closed spec fn view(&self) -> Seq<ContainerSlot<T>> {
        Seq::new(
            NUM_GAME_LOOPS as nat,
            |i: int|
                ContainerSlot {
                    task: self.data[i],
                    relative_frequency: self.relative_frequencies[i]@,
                    accumulator: self.timer[i] as int,
                },
        )
    }
}

/// How far one loop has got in a tick.
pub struct Paced {
    /// How often the loop was executed in this tick, a failed execution
    /// included.
    pub executed: u64,
    /// The credit that is left.
    pub credit: i128,
    /// Whether every execution so far succeeded.
    pub ok: bool,
}

/// Takes in the outcome of one execution of a loop that had `left` credit and
/// was executed `executed` times before in this tick. The execution counts
/// whatever came of it. One that succeeded is paid for with one whole
/// execution of credit. One that failed ends the tick for its loop: the credit
/// is settled at once, and what was still due is not owed any more.
pub fn executed_once(left: i128, executed: u64, ok: bool) -> (paced: Paced)
    requires
        0 <= left <= u64::MAX,
        executed < u64::MAX,
    ensures
        paced.executed == executed + 1,
        paced.ok == ok,
        ok ==> paced.credit == left - FREQUENCY_ONE,
        !ok ==> paced.credit == settled(left as int),
{
    proof {
        lemma_settled_range(left as int);
    }
    let credit = if ok {
        left - FREQUENCY_ONE as i128
    } else {
        left % (FREQUENCY_ONE as i128) - FREQUENCY_ONE as i128
    };
    Paced { executed: executed + 1, credit, ok }
}

/// Runs `task` while the credit is not negative, paying one whole execution
/// each time, and stops at the first failure. The credit that comes back is
/// settled either way.
fn run_due<T: GameLoop>(task: &mut T, credit: i128) -> (paced: Paced)
    requires
        -FREQUENCY_ONE <= credit <= u64::MAX,
    ensures
        paced.credit == settled(credit as int),
        paced.ok ==> paced.executed == due(credit as int),
        !paced.ok ==> 1 <= paced.executed <= due(credit as int),
{
    let mut paced = Paced { executed: 0, credit, ok: true };
    while paced.ok && paced.credit >= 0
        invariant
            -FREQUENCY_ONE <= credit <= u64::MAX,
            paced.ok ==> -FREQUENCY_ONE <= paced.credit <= credit,
            paced.ok ==> paced.credit == credit - paced.executed * FREQUENCY_ONE,
            !paced.ok ==> paced.credit == settled(credit as int),
            !paced.ok ==> 1 <= paced.executed <= due(credit as int),
        decreases
                if paced.ok {
                    paced.credit + FREQUENCY_ONE + 1
                } else {
                    0
                },
    {
        let ghost before = paced;
        let ok = task.run();
        paced = executed_once(paced.credit, paced.executed, ok);
        proof {
            lemma_settled_range(before.credit as int);
            lemma_settled_range(credit as int);
        }
    }
    paced
}

impl<T: GameLoop> GameLoopContainer<T> {
    /// The slots are those of a container.
    pub open spec fn wf(&self) -> bool {
        slots_wf(self@)
    }

    /// Whether a loop of this kind lives here.
    pub open spec fn holds(&self, kind: GameLoopKind) -> bool {
        self@[kind.slot()].task.is_some()
    }

    /// A container without loops.
    pub fn new() -> (container: Self)
        ensures
            container.wf(),
            forall|i: int|
                0 <= i < NUM_GAME_LOOPS ==> #[trigger] container@[i] == (ContainerSlot::<T> {
                    task: None,
                    relative_frequency: 0,
                    accumulator: 0,
                }),
    {
        let zero = Frequency::from_parts(0, 0);
        GameLoopContainer {
            data: [None, None, None],
            relative_frequencies: [zero, zero, zero],
            timer: [0, 0, 0],
        }
    }

    /// Puts a loop into the empty slot of its kind, to run at the given rate
    /// with no credit from before.
    pub fn insert(&mut self, kind: GameLoopKind, game_loop: T, relative_frequency: Frequency)
        requires
            old(self).wf(),
            !old(self).holds(kind),
        ensures
            final(self).wf(),
            final(self)@ == inserted(old(self)@, kind, game_loop, relative_frequency),
    {
        let kind_index = kind.index();
        proof {
            relative_frequency.lemma_range();
        }
        self.data[kind_index] = Some(game_loop);
        self.relative_frequencies[kind_index] = relative_frequency;
        self.timer[kind_index] = 0;
        assert(self@ =~= inserted(old(self)@, kind, game_loop, relative_frequency));
    }

    /// Changes the rate of a kind and nothing else.
    pub fn set_relative_frequency(&mut self, kind: GameLoopKind, relative_frequency: Frequency)
        requires
            old(self).wf(),
        ensures
            final(self).wf(),
            final(self)@ == rated(old(self)@, kind, relative_frequency),
    {
        let kind_index = kind.index();
        proof {
            relative_frequency.lemma_range();
        }
        self.relative_frequencies[kind_index] = relative_frequency;
        assert(self@ =~= rated(old(self)@, kind, relative_frequency));
    }

    /// Takes the loop of a kind out, if there is one, and leaves its slot
    /// empty.
    pub fn get(&mut self, kind: GameLoopKind) -> (game_loop: Option<T>)
        requires
            old(self).wf(),
        ensures
            final(self).wf(),
            game_loop == old(self)@[kind.slot()].task,
            final(self)@ == taken(old(self)@, kind),
    {
        let kind_index = kind.index();
        let game_loop = self.data[kind_index].take();
        assert(self@ =~= taken(old(self)@, kind));
        game_loop
    }

    /// Whether a loop of this kind lives here.
    pub fn contains(&self, kind: GameLoopKind) -> (held: bool)
        requires
            self.wf(),
        ensures
            held == self.holds(kind),
    {
        self.data[kind.index()].is_some()
    }

    /// Whether no loop lives here.
    pub fn empty(&self) -> (empty: bool)
        requires
            self.wf(),
        ensures
            empty <==> forall|i: int| 0 <= i < NUM_GAME_LOOPS ==> (#[trigger] self@[i]).task.is_none(),
    {
        let mut index: usize = 0;
        while index < NUM_GAME_LOOPS
            invariant
                index <= NUM_GAME_LOOPS,
                forall|i: int| 0 <= i < index ==> (#[trigger] self@[i]).task.is_none(),
            decreases NUM_GAME_LOOPS - index,
        {
            if self.data[index].is_some() {
                assert(self@[index as int].task.is_some());
                return false;
            }
            assert(self@[index as int].task.is_none());
            index = index + 1;
        }
        true
    }

    /// One tick: goes through the kinds in order and executes each loop that
    /// lives here as often as its credit together with its rate allows, up to
    /// the first execution that fails.
    pub fn run(&mut self) -> (report: RunReport)
        requires
            old(self).wf(),
        ensures
            final(self).wf(),
            tick(old(self)@, final(self)@, report),
    {
        let mut executed: [u64; 3] = [0, 0, 0];
        let mut index: usize = 0;
        while index < NUM_GAME_LOOPS
            invariant
                index <= NUM_GAME_LOOPS,
                old(self).wf(),
                self.wf(),
                forall|i: int|
                    #![trigger old(self)@[i]]
                    #![trigger self@[i]]
                    0 <= i < index ==> ticked(old(self)@[i], self@[i], executed[i] as int),
                forall|i: int|
                    #![trigger old(self)@[i]]
                    #![trigger self@[i]]
                    index <= i < NUM_GAME_LOOPS ==> {
                        &&& self@[i] == old(self)@[i]
                        &&& executed[i] == 0
                    },
            decreases NUM_GAME_LOOPS - index,
        {
            let ghost before = self@;
            let ghost counted = executed@;
            let credit: i128 = self.timer[index] as i128 + self.relative_frequencies[index].bits() as i128;
            assert(credit == before[index as int].credit());
            let paced = match &mut self.data[index] {
                Some(game_loop) => Some(run_due(game_loop, credit)),
                None => None,
            };
            match paced {
                Some(paced) => {
                    executed[index] = paced.executed;
                    self.timer[index] = paced.credit as i64;
                    proof {
                        lemma_settled_range(credit as int);
                    }
                    assert(self@[index as int] == before[index as int].ran(
                        self@[index as int].task,
                        due(credit as int) as int,
                    ));
                    assert forall|i: int| 0 <= i < NUM_GAME_LOOPS && i != index implies self@[i]
                        == before[i] && executed[i] == counted[i] by {}
                    assert(self.wf()) by {
                        assert forall|i: int| 0 <= i < NUM_GAME_LOOPS implies -FREQUENCY_ONE <= (
                        #[trigger] self@[i]).accumulator <= 0 && 0 <= self@[i].relative_frequency
                            <= u64::MAX by {
                            if i != index {
                                assert(self@[i] == before[i]);
                            }
                        }
                    }
                    if !paced.ok {
                        let kind = GameLoopKind::from_index(index);
                        assert forall|i: int| 0 <= i < kind.slot() implies ticked(
                            old(self)@[i],
                            self@[i],
                            executed[i] as int,
                        ) by {
                            assert(self@[i] == before[i]);
                        }
                        assert forall|i: int| kind.slot() < i < NUM_GAME_LOOPS implies self@[i]
                            == old(self)@[i] && executed[i] == 0 by {
                            assert(self@[i] == before[i]);
                        }
                        return RunReport { executed, failed: Some(kind) };
                    }
                    assert(ticked(
                        old(self)@[index as int],
                        self@[index as int],
                        executed[index as int] as int,
                    ));
                },
                None => {
                    assert(self@ =~= before);
                    assert(ticked(
                        old(self)@[index as int],
                        self@[index as int],
                        executed[index as int] as int,
                    ));
                },
            }
            assert forall|i: int| 0 <= i < index + 1 implies ticked(
                old(self)@[i],
                self@[i],
                executed[i] as int,
            ) by {
                if i < index {
                    assert(self@[i] == before[i]);
                    assert(executed[i] == counted[i]);
                }
            }
            assert forall|i: int| index + 1 <= i < NUM_GAME_LOOPS implies self@[i] == old(self)@[i]
                && executed[i] == 0 by {
                assert(self@[i] == before[i]);
                assert(executed[i] == counted[i]);
            }
            index = index + 1;
        }
        RunReport { executed, failed: None }
    }
}

} // verus!
