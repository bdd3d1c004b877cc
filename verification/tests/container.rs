use std::sync::{Arc, Mutex};

use amk::exec::loops::{executed_once, GameLoop, GameLoopContainer, GameLoopKind};
use amk::utils::frequency::{Frequency, FREQUENCY_ONE};

struct Counter {
    runs: u64,
}

impl GameLoop for Counter {
    fn run(&mut self) -> bool {
        self.runs += 1;
        true
    }
}

struct FailsAt {
    runs: u64,
    fails_at: u64,
}

impl GameLoop for FailsAt {
    fn run(&mut self) -> bool {
        self.runs += 1;
        self.runs != self.fails_at
    }
}

struct Recorder {
    name: &'static str,
    log: Arc<Mutex<Vec<&'static str>>>,
}

impl GameLoop for Recorder {
    fn run(&mut self) -> bool {
        self.log.lock().unwrap().push(self.name);
        true
    }
}

fn once() -> Frequency {
    Frequency::from_parts(1, 0)
}

fn half() -> Frequency {
    Frequency::from_parts(0, 0x8000_0000)
}

fn steady(kind: GameLoopKind, frequency: Frequency) -> GameLoopContainer<Counter> {
    let mut container = GameLoopContainer::new();
    container.insert(kind, Counter { runs: 0 }, frequency);
    container.run();
    container
}

fn floor_formula(accumulator: i128, frequency: i128, ticks: i128) -> i128 {
    let one = FREQUENCY_ONE as i128;
    (accumulator + ticks * frequency).div_euclid(one) - accumulator.div_euclid(one)
}

#[test]
fn new_container_is_empty() {
    let mut container: GameLoopContainer<Counter> = GameLoopContainer::new();
    assert!(container.empty());
    assert!(!container.contains(GameLoopKind::Update));
    assert!(!container.contains(GameLoopKind::Render));
    assert!(!container.contains(GameLoopKind::Audio));
    assert!(container.get(GameLoopKind::Render).is_none());
    let report = container.run();
    assert_eq!(report.executed, [0, 0, 0]);
    assert!(report.failed.is_none());
}

#[test]
fn kind_indices_are_dense() {
    assert_eq!(GameLoopKind::Update.index(), 0);
    assert_eq!(GameLoopKind::Render.index(), 1);
    assert_eq!(GameLoopKind::Audio.index(), 2);
    for index in 0..3 {
        assert_eq!(GameLoopKind::from_index(index).index(), index);
    }
}

#[test]
fn insert_fills_only_its_slot() {
    let mut container = GameLoopContainer::new();
    container.insert(GameLoopKind::Render, Counter { runs: 0 }, once());
    assert!(!container.empty());
    assert!(container.contains(GameLoopKind::Render));
    assert!(!container.contains(GameLoopKind::Update));
    assert!(!container.contains(GameLoopKind::Audio));
}

#[test]
fn get_takes_the_loop_out() {
    let mut container = GameLoopContainer::new();
    container.insert(GameLoopKind::Audio, Counter { runs: 7 }, once());
    let taken = container.get(GameLoopKind::Audio).unwrap();
    assert_eq!(taken.runs, 7);
    assert!(container.empty());
    assert!(container.get(GameLoopKind::Audio).is_none());
    let report = container.run();
    assert_eq!(report.executed, [0, 0, 0]);
}

#[test]
fn fresh_slot_at_rate_one_runs_twice_then_once() {
    let mut container = GameLoopContainer::new();
    container.insert(GameLoopKind::Update, Counter { runs: 0 }, once());
    let first = container.run();
    assert_eq!(first.executed, [2, 0, 0]);
    assert!(first.failed.is_none());
    let second = container.run();
    assert_eq!(second.executed, [1, 0, 0]);
    let task = container.get(GameLoopKind::Update).unwrap();
    assert_eq!(task.runs, 3);
}

#[test]
fn rate_one_runs_once_per_tick_in_steady_state() {
    let mut container = steady(GameLoopKind::Render, once());
    for _ in 0..10 {
        let report = container.run();
        assert_eq!(report.executed, [0, 1, 0]);
    }
    assert_eq!(container.get(GameLoopKind::Render).unwrap().runs, 12);
}

#[test]
fn rate_two_runs_twice_per_tick_in_steady_state() {
    let mut container = steady(GameLoopKind::Audio, Frequency::from_parts(2, 0));
    for _ in 0..5 {
        assert_eq!(container.run().executed, [0, 0, 2]);
    }
}

#[test]
fn rate_half_skips_and_runs_in_turn() {
    let mut container = GameLoopContainer::new();
    container.insert(GameLoopKind::Update, Counter { runs: 0 }, half());
    assert_eq!(container.run().executed, [1, 0, 0]);
    assert_eq!(container.run().executed, [1, 0, 0]);
    let mut pattern = Vec::new();
    for _ in 0..8 {
        pattern.push(container.run().executed[0]);
    }
    assert_eq!(pattern, vec![0, 1, 0, 1, 0, 1, 0, 1]);
}

#[test]
fn rate_zero_runs_once_and_never_again() {
    let mut container = GameLoopContainer::new();
    container.insert(GameLoopKind::Render, Counter { runs: 0 }, Frequency::from_parts(0, 0));
    assert_eq!(container.run().executed, [0, 1, 0]);
    for _ in 0..100 {
        assert_eq!(container.run().executed, [0, 0, 0]);
    }
    assert_eq!(container.get(GameLoopKind::Render).unwrap().runs, 1);
}

#[test]
fn steady_rate_follows_the_floor_formula() {
    // three tenths, rounded down to the fixed-point grid
    let bits: i64 = 1_288_490_188;
    let frequency = Frequency::new(bits).unwrap();
    let mut container = GameLoopContainer::new();
    container.insert(GameLoopKind::Update, Counter { runs: 0 }, frequency);
    assert_eq!(container.run().executed, [1, 0, 0]);
    // after the first tick the accumulator is 0.3 - 1
    let accumulator = bits as i128 - FREQUENCY_ONE as i128;
    let mut total: i128 = 0;
    for ticks in 1..=1000 {
        total += container.run().executed[0] as i128;
        assert_eq!(total, floor_formula(accumulator, bits as i128, ticks));
    }
    assert_eq!(total, 300);
}

#[test]
fn fractional_rate_above_one_never_drifts() {
    // two and a half per tick
    let frequency = Frequency::from_parts(2, 0x8000_0000);
    let mut container = steady(GameLoopKind::Update, frequency);
    let mut total = 0;
    let mut pattern = Vec::new();
    for _ in 0..4 {
        let executed = container.run().executed[0];
        pattern.push(executed);
        total += executed;
    }
    assert_eq!(pattern, vec![3, 2, 3, 2]);
    assert_eq!(total, 10);
}

#[test]
fn set_relative_frequency_keeps_the_accumulator() {
    let mut container = GameLoopContainer::new();
    container.insert(GameLoopKind::Update, Counter { runs: 0 }, half());
    // leaves the accumulator at minus one half
    assert_eq!(container.run().executed, [1, 0, 0]);
    container.set_relative_frequency(GameLoopKind::Update, Frequency::from_parts(1, 0x4000_0000));
    // -0.5 + 1.25 = 0.75: one execution, -0.25 left
    assert_eq!(container.run().executed, [1, 0, 0]);
    // -0.25 + 1.25 = 1.0: two executions, -1.0 left
    assert_eq!(container.run().executed, [2, 0, 0]);
    assert_eq!(container.get(GameLoopKind::Update).unwrap().runs, 4);
}

#[test]
fn insert_starts_with_no_credit_from_before() {
    let mut container = GameLoopContainer::new();
    container.insert(GameLoopKind::Update, Counter { runs: 0 }, half());
    container.run();
    container.run();
    // the accumulator is at minus one now: a skip would come next
    let task = container.get(GameLoopKind::Update).unwrap();
    container.insert(GameLoopKind::Update, task, half());
    // but the slot was filled anew, so the loop runs at once
    assert_eq!(container.run().executed, [1, 0, 0]);
}

#[test]
fn relocation_round_trip_keeps_the_loop() {
    let mut home = GameLoopContainer::new();
    let mut away = GameLoopContainer::new();
    home.insert(GameLoopKind::Render, Counter { runs: 0 }, once());
    home.insert(GameLoopKind::Audio, Counter { runs: 0 }, once());
    home.run();
    let task = home.get(GameLoopKind::Render).unwrap();
    assert!(!home.contains(GameLoopKind::Render));
    away.insert(GameLoopKind::Render, task, once());
    assert_eq!(home.run().executed, [0, 0, 1]);
    assert_eq!(away.run().executed, [0, 2, 0]);
    assert_eq!(away.run().executed, [0, 1, 0]);
    let task = away.get(GameLoopKind::Render).unwrap();
    assert!(away.empty());
    assert_eq!(task.runs, 5);
    home.insert(GameLoopKind::Render, task, once());
    assert_eq!(home.run().executed, [0, 2, 1]);
    assert_eq!(home.run().executed, [0, 1, 1]);
    assert_eq!(away.run().executed, [0, 0, 0]);
    assert_eq!(home.get(GameLoopKind::Render).unwrap().runs, 8);
}

#[test]
fn kinds_run_in_index_order() {
    let log = Arc::new(Mutex::new(Vec::new()));
    let mut container = GameLoopContainer::new();
    container.insert(GameLoopKind::Audio, Recorder { name: "audio", log: log.clone() }, once());
    container.insert(GameLoopKind::Update, Recorder { name: "update", log: log.clone() }, once());
    container.insert(GameLoopKind::Render, Recorder { name: "render", log: log.clone() }, half());
    container.run();
    assert_eq!(*log.lock().unwrap(), vec!["update", "update", "render", "audio", "audio"]);
}

#[test]
fn failed_execution_ends_the_tick() {
    let mut container = GameLoopContainer::new();
    container.insert(GameLoopKind::Update, FailsAt { runs: 0, fails_at: 0 }, once());
    container.insert(GameLoopKind::Render, FailsAt { runs: 0, fails_at: 2 }, Frequency::from_parts(3, 0));
    container.insert(GameLoopKind::Audio, FailsAt { runs: 0, fails_at: 0 }, once());
    let report = container.run();
    assert_eq!(report.failed, Some(GameLoopKind::Render));
    assert_eq!(report.executed, [2, 2, 0]);
    // the failed kind is owed nothing more for that tick, the kind after it
    // has yet to run its first tick
    let report = container.run();
    assert!(report.failed.is_none());
    assert_eq!(report.executed, [1, 3, 2]);
}

#[test]
fn failure_on_the_last_due_execution_is_reported() {
    let mut container = GameLoopContainer::new();
    container.insert(GameLoopKind::Update, FailsAt { runs: 0, fails_at: 2 }, once());
    let report = container.run();
    assert_eq!(report.failed, Some(GameLoopKind::Update));
    assert_eq!(report.executed, [2, 0, 0]);
    assert_eq!(container.run().executed, [1, 0, 0]);
}

#[test]
fn successful_execution_pays_one_whole_execution() {
    let one = FREQUENCY_ONE as i128;
    let paced = executed_once(3 * one + 5, 7, true);
    assert_eq!(paced.executed, 8);
    assert_eq!(paced.credit, 2 * one + 5);
    assert!(paced.ok);
    let paced = executed_once(0, 0, true);
    assert_eq!(paced.executed, 1);
    assert_eq!(paced.credit, -one);
    assert!(paced.ok);
}

#[test]
fn failed_execution_settles_the_credit() {
    let one = FREQUENCY_ONE as i128;
    let paced = executed_once(3 * one + 5, 7, false);
    assert_eq!(paced.executed, 8);
    assert_eq!(paced.credit, 5 - one);
    assert!(!paced.ok);
    let paced = executed_once(one, 0, false);
    assert_eq!(paced.executed, 1);
    assert_eq!(paced.credit, -one);
    let paced = executed_once(u64::MAX as i128, 0, false);
    assert_eq!(paced.credit, -1);
}
