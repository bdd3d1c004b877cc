//! Who owns which loop while the manager and its runners move loops about:
//! the manager's books and the containers of all threads, taken together.

use vstd::prelude::*;

use crate::exec::loops::{slots_wf, ContainerSlot, GameLoopKind, NUM_GAME_LOOPS};
use crate::exec::manager::{kind_at, Directive, ManagerView};
use crate::exec::mode::{MAIN_THREAD_ID, MAX_RUNNERS};
use crate::exec::msg::{FromRunnerMsg, ToRunnerMsg};
use crate::exec::runner::{action, in_order, received, Inbound, RunnerAction};
use crate::utils::frequency::Frequency;

verus! {

/// The manager together with the containers of the worker threads. A thread
/// without a runner counts as an empty container.
pub struct World<T> {
    /// The manager, with the container of the main thread.
    pub manager: ManagerView<T>,
    /// The containers of the runners, by thread id.
    pub workers: Seq<Seq<ContainerSlot<T>>>,
}

/// The kind whose loop a directive carries to a runner, if it carries one.
pub open spec fn carried<T>(directive: Directive<T>) -> Option<GameLoopKind> {
    match directive {
        Directive::Send { msg: ToRunnerMsg::SendLoop(kind, _, _), .. } => Some(kind),
        _ => None,
    }
}

/// One if the slot holds a loop, zero if not.
pub open spec fn held<T>(slot: ContainerSlot<T>) -> nat {
    if slot.task.is_some() {
        1
    } else {
        0
    }
}

impl<T> World<T> {
    /// In how many places the loop of a kind is: the containers of the main
    /// thread and of the three worker threads, and the directive that is
    /// about to be carried out.
    pub open spec fn holders(self, pending: Directive<T>, kind: GameLoopKind) -> nat {
        held(self.manager.loops[kind.slot()]) + held(self.workers[0][kind.slot()]) + held(
            self.workers[1][kind.slot()],
        ) + held(self.workers[2][kind.slot()]) + if carried(pending) == Some(kind) {
            1nat
        } else {
            0nat
        }
    }

    /// Every worker thread holds exactly the loops that the manager's books
    /// give to it.
    pub open spec fn workers_as_booked(self, pending: Directive<T>) -> bool {
        &&& self.workers.len() == MAX_RUNNERS
        &&& forall|t: int| 0 <= t < MAX_RUNNERS ==> slots_wf(#[trigger] self.workers[t])
        &&& forall|t: int, i: int|
            0 <= t < MAX_RUNNERS && 0 <= i < NUM_GAME_LOOPS ==> ((
            #[trigger] self.workers[t][i]).task.is_some() <==> self.manager.exec_mode[i].0 == t
                && carried(pending) != Some(kind_at(i)))
    }

    /// The directive is one that the manager has just given in this state.
    pub open spec fn pending_as_booked(self, pending: Directive<T>) -> bool {
        let manager = self.manager;
        match pending {
            Directive::Done => manager.idle(),
            Directive::Send { thread_id, create, msg } => {
                &&& !manager.awaiting
                &&& manager.cursor >= 1
                &&& thread_id < MAX_RUNNERS
                &&& manager.exec_mode[manager.cursor - 1].0 == thread_id
                &&& match msg {
                    ToRunnerMsg::SendLoop(kind, _, relative_frequency) => {
                        &&& kind == kind_at(manager.cursor - 1)
                        &&& manager.exec_mode[manager.cursor - 1].1 == relative_frequency
                    },
                    ToRunnerMsg::SetRelativeFrequency(kind, _) => kind == kind_at(
                        manager.cursor - 1,
                    ),
                    _ => false,
                }
            },
            Directive::Request { thread_id, msg } => {
                &&& manager.awaiting
                &&& manager.exec_mode[manager.cursor].0 == thread_id
                &&& msg == ToRunnerMsg::<T>::RequestLoop(kind_at(manager.cursor))
            },
        }
    }

    /// The books and the containers agree, with this directive about to be
    /// carried out.
    pub open spec fn coherent(self, pending: Directive<T>) -> bool {
        &&& self.manager.wf()
        &&& self.workers_as_booked(pending)
        &&& self.pending_as_booked(pending)
    }

    /// The runner of a thread takes in a message.
    pub open spec fn received_by(self, thread_id: usize, msg: ToRunnerMsg<T>) -> Seq<
        Seq<ContainerSlot<T>>,
    > {
        self.workers.update(
            thread_id as int,
            received(self.workers[thread_id as int], Inbound::Message(msg)),
        )
    }

    /// The main thread carries out a directive: the runner takes in the
    /// message, its answer, if one was asked for, goes back to the manager,
    /// and the manager goes on to its next directive.
    pub open spec fn carried_out(self, pending: Directive<T>) -> (World<T>, Directive<T>) {
        match pending {
            Directive::Done => (self, pending),
            Directive::Send { thread_id, create, msg } => {
                let (manager, next) = self.manager.advanced();
                (World { manager, workers: self.received_by(thread_id, msg) }, next)
            },
            Directive::Request { thread_id, msg } => {
                let game_loop = self.workers[thread_id as int][self.manager.cursor].task.unwrap();
                let (manager, next) = self.manager.delivered(game_loop);
                (World { manager, workers: self.received_by(thread_id, msg) }, next)
            },
        }
    }

    /// At the start, when the main thread holds every loop and no worker
    /// thread holds any, the books and the containers agree.
    pub proof fn lemma_start_coherent(self)
        requires
            self.manager.wf(),
            self.manager.idle(),
            forall|i: int|
                0 <= i < NUM_GAME_LOOPS ==> (#[trigger] self.manager.exec_mode[i]).0
                    == MAIN_THREAD_ID,
            self.workers.len() == MAX_RUNNERS,
            forall|t: int| 0 <= t < MAX_RUNNERS ==> slots_wf(#[trigger] self.workers[t]),
            forall|t: int, i: int|
                0 <= t < MAX_RUNNERS && 0 <= i < NUM_GAME_LOOPS ==> (
                #[trigger] self.workers[t][i]).task.is_none(),
        ensures
            self.coherent(Directive::Done),
    {
    }

    /// While the books and the containers agree, the loop of every kind is in
    /// exactly one place: in one container and not on its way, or on its way
    /// and in no container.
    pub proof fn lemma_one_holder(self, pending: Directive<T>, kind: GameLoopKind)
        requires
            self.coherent(pending),
        ensures
            self.holders(pending, kind) == 1,
    {
        let i = kind.slot();
        assert(kind_at(i) == kind);
        assert(self.manager.exec_mode[i].0 <= MAIN_THREAD_ID);
        assert(self.manager.loops[i].task.is_some() <==> self.manager.exec_mode[i].0
            == MAIN_THREAD_ID);
        assert(self.workers[0][i].task.is_some() <==> self.manager.exec_mode[i].0 == 0 && carried(
            pending,
        ) != Some(kind));
        assert(self.workers[1][i].task.is_some() <==> self.manager.exec_mode[i].0 == 1 && carried(
            pending,
        ) != Some(kind));
        assert(self.workers[2][i].task.is_some() <==> self.manager.exec_mode[i].0 == 2 && carried(
            pending,
        ) != Some(kind));
        if carried(pending) == Some(kind) {
            assert(self.manager.cursor - 1 == i);
        }
    }

    /// When the manager goes on from a state in which every loop is at rest
    /// where the books have it, the directive that it gives agrees with the
    /// books and the containers.
    pub proof fn lemma_advanced_coherent(self)
        requires
            self.manager.wf(),
            !self.manager.awaiting,
            self.workers_as_booked(Directive::Done),
        ensures
            (World { manager: self.manager.advanced().0, workers: self.workers }).coherent(
                self.manager.advanced().1,
            ),
        decreases NUM_GAME_LOOPS - self.manager.cursor,
    {
        let manager = self.manager;
        if manager.cursor < NUM_GAME_LOOPS {
            let (next, directive) = manager.reconciled();
            manager.lemma_reconciled_wf();
            let kind = kind_at(manager.cursor);
            assert(manager.target[manager.cursor].0 <= MAIN_THREAD_ID);
            assert(manager.exec_mode[manager.cursor].0 <= MAIN_THREAD_ID);
            assert(manager.loops[manager.cursor].task.is_some() <==> manager.exec_mode[manager.cursor].0
                == MAIN_THREAD_ID);
            match directive {
                None => {
                    let after = World { manager: next, workers: self.workers };
                    assert(after.workers_as_booked(Directive::Done)) by {
                        assert forall|t: int, i: int|
                            0 <= t < MAX_RUNNERS && 0 <= i < NUM_GAME_LOOPS implies ((
                            #[trigger] after.workers[t][i]).task.is_some()
                            <==> after.manager.exec_mode[i].0 == t) by {
                            assert(self.workers[t][i].task.is_some() <==> manager.exec_mode[i].0
                                == t);
                        }
                    }
                    after.lemma_advanced_coherent();
                },
                Some(directive) => {
                    let after = World { manager: next, workers: self.workers };
                    assert forall|t: int, i: int|
                        0 <= t < MAX_RUNNERS && 0 <= i < NUM_GAME_LOOPS implies ((
                        #[trigger] after.workers[t][i]).task.is_some()
                        <==> after.manager.exec_mode[i].0 == t && carried(directive) != Some(
                        kind_at(i),
                    )) by {
                        assert(self.workers[t][i].task.is_some() <==> manager.exec_mode[i].0 == t);
                    }
                },
            }
        }
    }

    /// Setting out for a new mode from a state of rest gives a first
    /// directive that agrees with the books and the containers.
    pub proof fn lemma_retargeted_coherent(self, target: Seq<(usize, Frequency)>)
        requires
            self.coherent(Directive::Done),
            target.len() == NUM_GAME_LOOPS,
            forall|i: int| 0 <= i < NUM_GAME_LOOPS ==> (#[trigger] target[i]).0 <= MAIN_THREAD_ID,
        ensures
            (World {
                manager: self.manager.retargeted(target).advanced().0,
                workers: self.workers,
            }).coherent(self.manager.retargeted(target).advanced().1),
    {
        let start = World { manager: self.manager.retargeted(target), workers: self.workers };
        assert(start.manager.wf());
        assert(start.workers_as_booked(Directive::Done));
        start.lemma_advanced_coherent();
    }

    /// Carrying out a directive keeps the books and the containers in
    /// agreement, and the message in it is one that its runner can take: the
    /// manager asks a runner only for a loop that the runner holds, and sends
    /// a loop only to a runner whose slot for it is empty.
    pub proof fn lemma_carried_out_coherent(self, pending: Directive<T>)
        requires
            self.coherent(pending),
        ensures
            self.carried_out(pending).0.coherent(self.carried_out(pending).1),
            pending matches Directive::Send { thread_id, msg, .. } ==> in_order(
                self.workers[thread_id as int],
                Inbound::Message(msg),
            ),
            pending matches Directive::Request { thread_id, msg } ==> {
                &&& in_order(self.workers[thread_id as int], Inbound::Message(msg))
                &&& action(self.workers[thread_id as int], Inbound::Message(msg))
                    == RunnerAction::Reply(
                    FromRunnerMsg::SendLoop(
                        self.workers[thread_id as int][self.manager.cursor].task.unwrap(),
                    ),
                )
            },
    {
        let manager = self.manager;
        match pending {
            Directive::Done => {},
            Directive::Send { thread_id, create, msg } => {
                let i = manager.cursor - 1;
                let kind = kind_at(i);
                assert(kind.slot() == i);
                let workers = self.received_by(thread_id, msg);
                let rest = World { manager, workers };
                assert(self.workers[thread_id as int][i].task.is_some() <==> manager.exec_mode[i].0
                    == thread_id && carried(pending) != Some(kind));
                assert(slots_wf(self.workers[thread_id as int]));
                match msg {
                    ToRunnerMsg::SendLoop(_, _, relative_frequency) => {
                        relative_frequency.lemma_range();
                    },
                    ToRunnerMsg::SetRelativeFrequency(_, relative_frequency) => {
                        relative_frequency.lemma_range();
                    },
                    _ => {},
                }
                assert(rest.workers_as_booked(Directive::Done)) by {
                    assert forall|t: int| 0 <= t < MAX_RUNNERS implies slots_wf(
                        #[trigger] rest.workers[t],
                    ) by {
                        assert(slots_wf(self.workers[t]));
                    }
                    assert forall|t: int, j: int|
                        0 <= t < MAX_RUNNERS && 0 <= j < NUM_GAME_LOOPS implies ((
                        #[trigger] rest.workers[t][j]).task.is_some() <==> manager.exec_mode[j].0
                        == t) by {
                        assert(self.workers[t][j].task.is_some() <==> manager.exec_mode[j].0 == t
                            && carried(pending) != Some(kind_at(j)));
                        assert(manager.exec_mode[j].0 <= MAIN_THREAD_ID);
                    }
                }
                rest.lemma_advanced_coherent();
            },
            Directive::Request { thread_id, msg } => {
                let i = manager.cursor;
                let kind = kind_at(i);
                assert(kind.slot() == i);
                assert(self.workers[thread_id as int][i].task.is_some() <==> manager.exec_mode[i].0
                    == thread_id && carried(pending) != Some(kind));
                assert(slots_wf(self.workers[thread_id as int]));
                let game_loop = self.workers[thread_id as int][i].task.unwrap();
                let workers = self.received_by(thread_id, msg);
                let (next, directive) = manager.sent(game_loop);
                assert(manager.loops[i].task.is_some() <==> manager.exec_mode[i].0
                    == MAIN_THREAD_ID);
                manager.lemma_sent_wf(game_loop);
                assert(manager.target[i].0 <= MAIN_THREAD_ID);
                let after = World { manager: next, workers };
                assert forall|t: int| 0 <= t < MAX_RUNNERS implies slots_wf(
                    #[trigger] after.workers[t],
                ) by {
                    assert(slots_wf(self.workers[t]));
                }
                match directive {
                    Some(directive) => {
                        assert forall|t: int, j: int|
                            0 <= t < MAX_RUNNERS && 0 <= j < NUM_GAME_LOOPS implies ((
                            #[trigger] after.workers[t][j]).task.is_some()
                            <==> next.exec_mode[j].0 == t && carried(directive) != Some(
                            kind_at(j),
                        )) by {
                            assert(self.workers[t][j].task.is_some() <==> manager.exec_mode[j].0
                                == t && carried(pending) != Some(kind_at(j)));
                        }
                    },
                    None => {
                        assert(after.workers_as_booked(Directive::Done)) by {
                            assert forall|t: int, j: int|
                                0 <= t < MAX_RUNNERS && 0 <= j < NUM_GAME_LOOPS implies ((
                                #[trigger] after.workers[t][j]).task.is_some()
                                <==> next.exec_mode[j].0 == t) by {
                                assert(self.workers[t][j].task.is_some()
                                    <==> manager.exec_mode[j].0 == t && carried(pending) != Some(
                                    kind_at(j),
                                ));
                            }
                        }
                        after.lemma_advanced_coherent();
                    },
                }
            },
        }
    }

    /// The slot of a kind in the container of a thread.
    pub open spec fn slot(self, thread_id: int, i: int) -> ContainerSlot<T> {
        if thread_id == MAIN_THREAD_ID {
            self.manager.loops[i]
        } else {
            self.workers[thread_id][i]
        }
    }

    /// The slot that holds the loop of a kind once the kind has been brought
    /// from where `start` has it to the thread and the rate of `entry`: the
    /// same loop at the new rate, with the accumulator that it had if it
    /// stayed on its thread, and with none if it moved.
    pub open spec fn moved_slot(start: World<T>, i: int, entry: (usize, Frequency)) -> ContainerSlot<
        T,
    > {
        let from = start.manager.exec_mode[i].0;
        let old = start.slot(from as int, i);
        ContainerSlot {
            task: old.task,
            relative_frequency: entry.1@,
            accumulator: if entry.0 == from {
                old.accumulator
            } else {
                0
            },
        }
    }

    /// How far the move from `start` to the target has got for one kind. A
    /// kind that is not reached yet is where `start` has it, in every
    /// container. A kind that is dealt with is booked as the target wants it,
    /// and its loop is in its new slot, unless the directive that is about to
    /// be carried out still has to bring it or its rate there.
    pub open spec fn kind_on_the_way(self, start: World<T>, pending: Directive<T>, i: int) -> bool {
        let entry = self.manager.target[i];
        let from = start.manager.exec_mode[i].0;
        if i >= self.manager.cursor {
            &&& self.manager.exec_mode[i] == start.manager.exec_mode[i]
            &&& self.manager.loops[i] == start.manager.loops[i]
            &&& self.workers[0][i] == start.workers[0][i]
            &&& self.workers[1][i] == start.workers[1][i]
            &&& self.workers[2][i] == start.workers[2][i]
        } else if i == self.manager.cursor - 1 && pending is Send {
            &&& self.manager.exec_mode[i] == entry
            &&& match pending {
                Directive::Send { thread_id, create, msg } => match msg {
                    ToRunnerMsg::SendLoop(_, game_loop, relative_frequency) => {
                        &&& Some(game_loop) == start.slot(from as int, i).task
                        &&& relative_frequency == entry.1
                        &&& entry.0 != from
                    },
                    ToRunnerMsg::SetRelativeFrequency(_, relative_frequency) => {
                        &&& relative_frequency == entry.1
                        &&& entry.0 == from
                        &&& self.workers[thread_id as int][i] == start.workers[thread_id as int][i]
                    },
                    _ => false,
                },
                _ => false,
            }
        } else {
            &&& self.manager.exec_mode[i] == entry
            &&& self.slot(entry.0 as int, i) == Self::moved_slot(start, i, entry)
        }
    }

    /// How far the move from `start` to the target has got.
    pub open spec fn on_the_way(self, start: World<T>, pending: Directive<T>) -> bool {
        forall|i: int| 0 <= i < NUM_GAME_LOOPS ==> #[trigger] self.kind_on_the_way(start, pending, i)
    }

    /// When the manager goes on in the middle of a move, the move has got
    /// as far as the directive that it gives says.
    pub proof fn lemma_advanced_on_the_way(self, start: World<T>)
        requires
            self.manager.wf(),
            !self.manager.awaiting,
            self.workers_as_booked(Directive::Done),
            self.on_the_way(start, Directive::Done),
        ensures
            (World { manager: self.manager.advanced().0, workers: self.workers }).on_the_way(
                start,
                self.manager.advanced().1,
            ),
        decreases NUM_GAME_LOOPS - self.manager.cursor,
    {
        let manager = self.manager;
        if manager.cursor < NUM_GAME_LOOPS {
            let (next, directive) = manager.reconciled();
            manager.lemma_reconciled_wf();
            let c = manager.cursor;
            let kind = kind_at(c);
            assert(kind.slot() == c);
            assert(manager.target[c].0 <= MAIN_THREAD_ID);
            assert(manager.exec_mode[c].0 <= MAIN_THREAD_ID);
            assert(manager.loops[c].task.is_some() <==> manager.exec_mode[c].0 == MAIN_THREAD_ID);
            assert(self.kind_on_the_way(start, Directive::Done, c));
            let after = World { manager: next, workers: self.workers };
            match directive {
                None => {
                    assert forall|i: int| 0 <= i < NUM_GAME_LOOPS implies #[trigger] after.kind_on_the_way(
                        start,
                        Directive::Done,
                        i,
                    ) by {
                        assert(self.kind_on_the_way(start, Directive::Done, i));
                    }
                    assert(after.workers_as_booked(Directive::Done)) by {
                        assert forall|t: int, i: int|
                            0 <= t < MAX_RUNNERS && 0 <= i < NUM_GAME_LOOPS implies ((
                            #[trigger] after.workers[t][i]).task.is_some()
                            <==> after.manager.exec_mode[i].0 == t) by {
                            assert(self.workers[t][i].task.is_some() <==> manager.exec_mode[i].0
                                == t);
                        }
                    }
                    after.lemma_advanced_on_the_way(start);
                },
                Some(directive) => {
                    assert forall|i: int| 0 <= i < NUM_GAME_LOOPS implies #[trigger] after.kind_on_the_way(
                        start,
                        directive,
                        i,
                    ) by {
                        assert(self.kind_on_the_way(start, Directive::Done, i));
                    }
                },
            }
        }
    }

    /// Setting out for a new target from a state of rest, the move has got as
    /// far as the first directive says.
    pub proof fn lemma_retargeted_on_the_way(self, target: Seq<(usize, Frequency)>)
        requires
            self.coherent(Directive::Done),
            target.len() == NUM_GAME_LOOPS,
            forall|i: int| 0 <= i < NUM_GAME_LOOPS ==> (#[trigger] target[i]).0 <= MAIN_THREAD_ID,
        ensures
            (World {
                manager: self.manager.retargeted(target).advanced().0,
                workers: self.workers,
            }).on_the_way(self, self.manager.retargeted(target).advanced().1),
    {
        let begun = World { manager: self.manager.retargeted(target), workers: self.workers };
        assert(begun.manager.wf());
        assert(begun.workers_as_booked(Directive::Done));
        assert forall|i: int| 0 <= i < NUM_GAME_LOOPS implies #[trigger] begun.kind_on_the_way(
            self,
            Directive::Done,
            i,
        ) by {}
        begun.lemma_advanced_on_the_way(self);
    }

    /// Carrying out a directive takes the move as far as the next directive
    /// says.
    #[verifier::rlimit(50)]
    pub proof fn lemma_carried_out_on_the_way(self, start: World<T>, pending: Directive<T>)
        requires
            self.coherent(pending),
            self.on_the_way(start, pending),
        ensures
            self.carried_out(pending).0.on_the_way(start, self.carried_out(pending).1),
    {
        let manager = self.manager;
        self.lemma_carried_out_coherent(pending);
        match pending {
            Directive::Done => {},
            Directive::Send { thread_id, create, msg } => {
                let c = manager.cursor - 1;
                let kind = kind_at(c);
                assert(kind.slot() == c);
                let rest = World { manager, workers: self.received_by(thread_id, msg) };
                assert(self.workers[thread_id as int][c].task.is_some() <==> manager.exec_mode[c].0
                    == thread_id && carried(pending) != Some(kind));
                assert(slots_wf(self.workers[thread_id as int]));
                assert(self.kind_on_the_way(start, pending, c));
                match msg {
                    ToRunnerMsg::SendLoop(_, _, relative_frequency) => {
                        relative_frequency.lemma_range();
                    },
                    ToRunnerMsg::SetRelativeFrequency(_, relative_frequency) => {
                        relative_frequency.lemma_range();
                    },
                    _ => {},
                }
                assert(rest.workers_as_booked(Directive::Done)) by {
                    assert forall|t: int| 0 <= t < MAX_RUNNERS implies slots_wf(
                        #[trigger] rest.workers[t],
                    ) by {
                        assert(slots_wf(self.workers[t]));
                    }
                    assert forall|t: int, j: int|
                        0 <= t < MAX_RUNNERS && 0 <= j < NUM_GAME_LOOPS implies ((
                        #[trigger] rest.workers[t][j]).task.is_some() <==> manager.exec_mode[j].0
                        == t) by {
                        assert(self.workers[t][j].task.is_some() <==> manager.exec_mode[j].0 == t
                            && carried(pending) != Some(kind_at(j)));
                        assert(manager.exec_mode[j].0 <= MAIN_THREAD_ID);
                    }
                }
                assert forall|i: int| 0 <= i < NUM_GAME_LOOPS implies #[trigger] rest.kind_on_the_way(
                    start,
                    Directive::Done,
                    i,
                ) by {
                    assert(self.kind_on_the_way(start, pending, i));
                    assert(manager.exec_mode[i].0 <= MAIN_THREAD_ID);
                    assert(manager.target[i].0 <= MAIN_THREAD_ID);
                }
                rest.lemma_advanced_on_the_way(start);
            },
            Directive::Request { thread_id, msg } => {
                let c = manager.cursor;
                let kind = kind_at(c);
                assert(kind.slot() == c);
                assert(self.workers[thread_id as int][c].task.is_some() <==> manager.exec_mode[c].0
                    == thread_id && carried(pending) != Some(kind));
                assert(slots_wf(self.workers[thread_id as int]));
                assert(self.kind_on_the_way(start, pending, c));
                let game_loop = self.workers[thread_id as int][c].task.unwrap();
                let workers = self.received_by(thread_id, msg);
                let (next, directive) = manager.sent(game_loop);
                assert(manager.loops[c].task.is_some() <==> manager.exec_mode[c].0
                    == MAIN_THREAD_ID);
                manager.lemma_sent_wf(game_loop);
                assert(manager.target[c].0 <= MAIN_THREAD_ID);
                manager.target[c].1.lemma_range();
                let after = World { manager: next, workers };
                assert forall|t: int| 0 <= t < MAX_RUNNERS implies slots_wf(
                    #[trigger] after.workers[t],
                ) by {
                    assert(slots_wf(self.workers[t]));
                }
                match directive {
                    Some(directive) => {
                        assert forall|i: int| 0 <= i < NUM_GAME_LOOPS implies #[trigger] after.kind_on_the_way(
                            start,
                            directive,
                            i,
                        ) by {
                            assert(self.kind_on_the_way(start, pending, i));
                            assert(manager.exec_mode[i].0 <= MAIN_THREAD_ID);
                            assert(manager.target[i].0 <= MAIN_THREAD_ID);
                        }
                    },
                    None => {
                        assert(after.workers_as_booked(Directive::Done)) by {
                            assert forall|t: int, j: int|
                                0 <= t < MAX_RUNNERS && 0 <= j < NUM_GAME_LOOPS implies ((
                                #[trigger] after.workers[t][j]).task.is_some()
                                <==> next.exec_mode[j].0 == t) by {
                                assert(self.workers[t][j].task.is_some()
                                    <==> manager.exec_mode[j].0 == t && carried(pending) != Some(
                                    kind_at(j),
                                ));
                            }
                        }
                        assert forall|i: int| 0 <= i < NUM_GAME_LOOPS implies #[trigger] after.kind_on_the_way(
                            start,
                            Directive::Done,
                            i,
                        ) by {
                            assert(self.kind_on_the_way(start, pending, i));
                            assert(manager.exec_mode[i].0 <= MAIN_THREAD_ID);
                            assert(manager.target[i].0 <= MAIN_THREAD_ID);
                        }
                        after.lemma_advanced_on_the_way(start);
                    },
                }
            },
        }
    }

    /// When nothing is left to do, every kind is where the target wants it:
    /// its loop, the same as at the start, lives on the thread that the
    /// target names and on no other, at the rate of the target, and with the
    /// accumulator that it had if it stayed on its thread and with none if it
    /// moved.
    pub proof fn lemma_move_complete(self, start: World<T>, kind: GameLoopKind)
        requires
            self.coherent(Directive::Done),
            self.on_the_way(start, Directive::Done),
        ensures
            self.manager.exec_mode[kind.slot()] == self.manager.target[kind.slot()],
            self.slot(self.manager.target[kind.slot()].0 as int, kind.slot()) == Self::moved_slot(
                start,
                kind.slot(),
                self.manager.target[kind.slot()],
            ),
            self.holders(Directive::Done, kind) == 1,
    {
        assert(self.kind_on_the_way(start, Directive::Done, kind.slot()));
        self.lemma_one_holder(Directive::Done, kind);
    }

    /// A loop that is moved to another thread and back, at one rate, by two
    /// moves that each ran to their end, is the same loop afterwards, on the
    /// thread where it was and on no other, at its rate, and with an
    /// accumulator of zero.
    pub proof fn lemma_round_trip(
        start: World<T>,
        away: World<T>,
        back: World<T>,
        kind: GameLoopKind,
    )
        requires
            start.coherent(Directive::Done),
            away.coherent(Directive::Done),
            away.on_the_way(start, Directive::Done),
            back.coherent(Directive::Done),
            back.on_the_way(away, Directive::Done),
            away.manager.target[kind.slot()].0 != start.manager.exec_mode[kind.slot()].0,
            away.manager.target[kind.slot()].1 == start.manager.exec_mode[kind.slot()].1,
            back.manager.target[kind.slot()] == start.manager.exec_mode[kind.slot()],
        ensures
            ({
                let home = start.manager.exec_mode[kind.slot()];
                &&& back.manager.exec_mode[kind.slot()] == home
                &&& back.slot(home.0 as int, kind.slot()) == (ContainerSlot {
                    task: start.slot(home.0 as int, kind.slot()).task,
                    relative_frequency: home.1@,
                    accumulator: 0,
                })
                &&& start.slot(home.0 as int, kind.slot()).task.is_some()
                &&& back.holders(Directive::Done, kind) == 1
            }),
    {
        let i = kind.slot();
        assert(kind_at(i) == kind);
        away.lemma_move_complete(start, kind);
        back.lemma_move_complete(away, kind);
        let home = start.manager.exec_mode[i];
        assert(home.0 <= MAIN_THREAD_ID);
        assert(start.manager.loops[i].task.is_some() <==> home.0 == MAIN_THREAD_ID);
        if home.0 < MAIN_THREAD_ID {
            assert(start.workers[home.0 as int][i].task.is_some() <==> start.manager.exec_mode[i].0
                == home.0 && carried(Directive::<T>::Done) != Some(kind_at(i)));
        }
    }
}

} // verus!
