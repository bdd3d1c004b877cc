use std::cell::Cell;
use std::rc::Rc;

use amk::utils::clock::{Clock, SubtractableInstant};
use amk::utils::frequency::Frequency;
use amk::utils::sync::{
    corrected, new_clock_sync, pause_for, period, ClockSync, OFClockSync, Pause, MAX_LEAD, MIN_LAG,
    NANOS_PER_SEC,
};

/// A point in time of a clock that only the test moves.
#[derive(Clone, Copy)]
struct Tick(u64);

impl SubtractableInstant for Tick {
    fn nanos_since(self, earlier: Self) -> u64 {
        self.0.saturating_sub(earlier.0)
    }
}

/// A clock that only the test moves.
struct Manual {
    now: Rc<Cell<u64>>,
}

impl Clock for Manual {
    type Instant = Tick;

    fn now(&self) -> Tick {
        Tick(self.now.get())
    }
}

fn manual() -> (Rc<Cell<u64>>, OFClockSync<Manual>) {
    let now = Rc::new(Cell::new(1_000_000_000));
    let pacer = OFClockSync::new(Manual { now: now.clone() });
    (now, pacer)
}

fn hertz(whole: u32) -> Frequency {
    Frequency::from_parts(whole, 0)
}

fn advance(now: &Rc<Cell<u64>>, nanos: u64) {
    now.set(now.get() + nanos);
}

#[test]
fn period_is_the_inverse_of_the_rate() {
    assert_eq!(NANOS_PER_SEC, 1_000_000_000);
    assert_eq!(period(hertz(1)), 1_000_000_000);
    assert_eq!(period(hertz(60)), 16_666_666);
    assert_eq!(period(hertz(1000)), 1_000_000);
    assert_eq!(period(Frequency::from_parts(0, 0x8000_0000)), 2_000_000_000);
    assert_eq!(period(Frequency::from_parts(0, 1)), 4_294_967_296_000_000_000);
}

#[test]
fn bounds_of_the_sleep_error() {
    assert_eq!(MIN_LAG, -33_333_333);
    assert_eq!(MAX_LEAD, i64::MAX);
}

#[test]
fn rate_zero_does_not_pace() {
    let (now, mut pacer) = manual();
    advance(&now, 5_000_000);
    assert_eq!(pacer.sync(Frequency::from_parts(0, 0)), None);
    // the period of the next call still starts where the pacer was made
    advance(&now, 5_000_000);
    assert_eq!(pacer.sync(hertz(50)), Some(Pause { elapsed: 10_000_000, sleep: 10_000_000 }));
}

#[test]
fn sleeps_for_the_rest_of_the_period() {
    let (now, mut pacer) = manual();
    advance(&now, 4_000_000);
    assert_eq!(pacer.sync(hertz(100)), Some(Pause { elapsed: 4_000_000, sleep: 6_000_000 }));
}

#[test]
fn late_caller_does_not_sleep() {
    let (now, mut pacer) = manual();
    advance(&now, 12_000_000);
    assert_eq!(pacer.sync(hertz(100)), Some(Pause { elapsed: 12_000_000, sleep: 0 }));
}

#[test]
fn exact_sleeps_keep_the_error_at_zero() {
    let (now, mut pacer) = manual();
    for work in [1_000_000, 9_999_999, 0, 3_333_333, 10_000_000, 7] {
        advance(&now, work);
        let pause = pacer.sync(hertz(100)).unwrap();
        assert_eq!(pause.elapsed, work);
        assert_eq!(pause.sleep, 10_000_000 - work);
        advance(&now, pause.sleep);
        assert_eq!(pacer.wake(), pause.sleep);
    }
    // no error was carried over: the next sleep is the rest of the period
    advance(&now, 2_000_000);
    assert_eq!(pacer.sync(hertz(100)).unwrap().sleep, 8_000_000);
}

#[test]
fn overslept_time_is_taken_off_the_next_sleep() {
    let (now, mut pacer) = manual();
    advance(&now, 2_000_000);
    let pause = pacer.sync(hertz(100)).unwrap();
    assert_eq!(pause.sleep, 8_000_000);
    // the sleep takes one millisecond too long
    advance(&now, 9_000_000);
    assert_eq!(pacer.wake(), 9_000_000);
    advance(&now, 2_000_000);
    let pause = pacer.sync(hertz(100)).unwrap();
    assert_eq!(pause, Pause { elapsed: 2_000_000, sleep: 7_000_000 });
}

#[test]
fn short_sleep_is_added_to_the_next_sleep() {
    let (now, mut pacer) = manual();
    advance(&now, 2_000_000);
    assert_eq!(pacer.sync(hertz(100)).unwrap().sleep, 8_000_000);
    advance(&now, 7_500_000);
    assert_eq!(pacer.wake(), 7_500_000);
    advance(&now, 2_000_000);
    assert_eq!(pacer.sync(hertz(100)).unwrap().sleep, 8_500_000);
}

#[test]
fn error_never_falls_below_a_thirtieth_of_a_second() {
    let (now, mut pacer) = manual();
    // a caller that is ten seconds late
    advance(&now, 10_000_000_000);
    assert_eq!(pacer.sync(hertz(100)).unwrap().sleep, 0);
    assert_eq!(pacer.wake(), 0);
    // the error is held at a thirtieth of a second: an early caller, with its
    // whole period before it, sleeps that much less
    let pause = pacer.sync(hertz(10)).unwrap();
    assert_eq!(pause, Pause { elapsed: 0, sleep: 100_000_000 - 33_333_333 });
    // an exact sleep then clears the error
    advance(&now, pause.sleep);
    assert_eq!(pacer.wake(), 66_666_667);
    let pause = pacer.sync(hertz(10)).unwrap();
    assert_eq!(pause, Pause { elapsed: 0, sleep: 100_000_000 });
}

#[test]
fn lagging_caller_with_a_short_period_does_not_sleep() {
    let (now, mut pacer) = manual();
    advance(&now, 1_000_000_000);
    assert_eq!(pacer.sync(hertz(100)).unwrap().sleep, 0);
    assert_eq!(pacer.wake(), 0);
    let pause = pacer.sync(hertz(100)).unwrap();
    assert_eq!(pause, Pause { elapsed: 0, sleep: 0 });
}

#[test]
fn lag_is_worked_off_by_later_calls() {
    let (now, mut pacer) = manual();
    advance(&now, 10_000_000_000);
    pacer.sync(hertz(100));
    pacer.wake();
    // 33_333_333 behind: three periods of ten milliseconds go by without sleep
    for _ in 0..3 {
        assert_eq!(pacer.sync(hertz(100)).unwrap().sleep, 0);
        assert_eq!(pacer.wake(), 0);
    }
    assert_eq!(pacer.sync(hertz(100)).unwrap().sleep, 6_666_667);
}

#[test]
fn monotonic_pacer_asks_for_no_more_than_a_period() {
    let mut pacer = new_clock_sync();
    let pause = pacer.sync(hertz(1000)).unwrap();
    assert!(pause.sleep <= 1_000_000);
    assert_eq!(pause.sleep, 1_000_000u64.saturating_sub(pause.elapsed));
    pacer.wake();
}

#[test]
fn pause_is_the_rest_of_the_period_and_the_error() {
    assert_eq!(
        pause_for(hertz(100), 4_000_000, 0),
        (6_000_000, Pause { elapsed: 4_000_000, sleep: 6_000_000 })
    );
    assert_eq!(
        pause_for(hertz(100), 4_000_000, -1_500_000),
        (6_000_000, Pause { elapsed: 4_000_000, sleep: 4_500_000 })
    );
    assert_eq!(
        pause_for(hertz(100), 4_000_000, 2_000_000),
        (6_000_000, Pause { elapsed: 4_000_000, sleep: 8_000_000 })
    );
    assert_eq!(
        pause_for(hertz(10), 500_000_000, 0),
        (-400_000_000, Pause { elapsed: 500_000_000, sleep: 0 })
    );
    assert_eq!(
        pause_for(hertz(1), u64::MAX, MIN_LAG),
        (1_000_000_000 - u64::MAX as i128, Pause { elapsed: u64::MAX, sleep: 0 })
    );
}

#[test]
fn error_is_corrected_by_what_the_sleep_fell_short() {
    assert_eq!(corrected(0, 6_000_000, 6_000_000), 0);
    assert_eq!(corrected(0, 6_000_000, 7_000_000), -1_000_000);
    assert_eq!(corrected(0, 6_000_000, 5_000_000), 1_000_000);
    assert_eq!(corrected(-1_000_000, 6_000_000, 5_000_000), 0);
    // a caller half a second late at ten calls per second
    assert_eq!(corrected(0, -400_000_000, 0), MIN_LAG);
    assert_eq!(corrected(MIN_LAG, 10_000_000, 0), MIN_LAG + 10_000_000);
    assert_eq!(corrected(i64::MAX, 1, 0), MAX_LEAD);
    assert_eq!(corrected(MIN_LAG, -(u64::MAX as i128), u64::MAX), MIN_LAG);
}

#[test]
fn late_caller_is_held_to_the_lag_and_the_clock_is_read_twice() {
    let (now, mut pacer) = manual();
    advance(&now, 500_000_000);
    assert_eq!(pacer.sync(hertz(10)), Some(Pause { elapsed: 500_000_000, sleep: 0 }));
    assert_eq!(pacer.wake(), 0);
    // the next period began at the reading of the call, not at that of waking
    advance(&now, 30_000_000);
    let pause = pacer.sync(hertz(10)).unwrap();
    assert_eq!(pause.elapsed, 30_000_000);
    assert_eq!(pause.sleep, 100_000_000 - 30_000_000 - 33_333_333);
}

#[test]
fn time_asleep_counts_towards_the_next_period() {
    let (now, mut pacer) = manual();
    advance(&now, 1_000_000);
    let pause = pacer.sync(hertz(100)).unwrap();
    advance(&now, pause.sleep);
    pacer.wake();
    // the period is measured from waking to the next call
    advance(&now, 3_000_000);
    assert_eq!(pacer.sync(hertz(100)).unwrap().elapsed, 3_000_000);
}
