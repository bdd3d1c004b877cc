use std::time::Instant;

use vstd::prelude::*;

use crate::utils::clock::{saturated, Clock, InstantClock, SubtractableInstant};
use crate::utils::frequency::{Frequency, FREQUENCY_ONE};

verus! {

/// The nanoseconds in a second.
pub const NANOS_PER_SEC: u64 = 1_000_000_000;

/// The most that the sleep error may fall behind, in nanoseconds: a
/// thirtieth of a second, rounded towards zero.
pub const MIN_LAG: i64 = -33_333_333;

/// The most that the sleep error may run ahead, in nanoseconds: as much as
/// its machine word holds.
pub const MAX_LEAD: i64 = 0x7fff_ffff_ffff_ffff;

/// The nanoseconds between two calls at a rate, which is not zero, of calls
/// per second.
pub open spec fn period_nanos(frequency: int) -> int {
    (NANOS_PER_SEC * FREQUENCY_ONE) / frequency
}

/// The nanoseconds to sleep: the time that is left of the period, corrected
/// by the error of the sleeps so far, and never less than nothing.
pub open spec fn sleep_nanos(excess_time: int, sleep_error: int) -> int {
    if excess_time + sleep_error > 0 {
        excess_time + sleep_error
    } else {
        0
    }
}

/// The error after a sleep: the error before it and what the sleep fell short
/// of the time that was left, held to the bounds.
pub open spec fn corrected_error(sleep_error: int, excess_time: int, time_slept: int) -> int {
    let error = sleep_error + excess_time - time_slept;
    if error < MIN_LAG {
        MIN_LAG as int
    } else if error > MAX_LEAD {
        MAX_LEAD as int
    } else {
        error
    }
}

/// The error after a run of calls that each find `excess_times[i]` of their
/// period left and then sleep exactly as long as they were told to.
pub open spec fn error_after_exact_sleeps(sleep_error: int, excess_times: Seq<int>) -> int
    decreases excess_times.len(),
{
    if excess_times.len() == 0 {
        sleep_error
    } else {
        error_after_exact_sleeps(
            corrected_error(
                sleep_error,
                excess_times[0],
                sleep_nanos(excess_times[0], sleep_error),
            ),
            excess_times.skip(1),
        )
    }
}

/// Without drift the error stays at zero: when no call comes late and every
/// sleep takes exactly as long as asked, an error of zero is an error of zero
/// after any number of calls. A call that comes after its period has run out
/// has nothing to sleep and puts its lateness into the error.
pub proof fn lemma_exact_sleeps_keep_zero(excess_times: Seq<int>)
    requires
        forall|i: int| 0 <= i < excess_times.len() ==> 0 <= #[trigger] excess_times[i],
    ensures
        error_after_exact_sleeps(0, excess_times) == 0,
    decreases excess_times.len(),
{
    if excess_times.len() > 0 {
        assert(corrected_error(0, excess_times[0], sleep_nanos(excess_times[0], 0)) == 0);
        let rest = excess_times.skip(1);
        assert forall|i: int| 0 <= i < rest.len() implies 0 <= #[trigger] rest[i] by {
            assert(rest[i] == excess_times[i + 1]);
        }
        lemma_exact_sleeps_keep_zero(rest);
    }
}

/// However late a call comes and however long a sleep takes, the error never
/// falls below a thirtieth of a second behind.
pub proof fn lemma_error_never_below_min_lag(sleep_error: int, excess_time: int, time_slept: int)
    ensures
        MIN_LAG <= corrected_error(sleep_error, excess_time, time_slept) <= MAX_LEAD,
{
}

/// What the first half of a call found and decided.
#[derive(Clone, Copy, Debug, PartialEq, Eq, Structural)]
pub struct Pause {
    /// The nanoseconds since the call before.
    pub elapsed: u64,
    /// The nanoseconds that the caller has to sleep now.
    pub sleep: u64,
}

/// Holds a thread that would otherwise run free to a rate of calls per
/// second. A call has two halves with the caller's sleep between them: `sync`
/// says how long to sleep, `wake` measures how long the sleep took.
pub trait ClockSync {
    /// The error of the sleeps so far, in nanoseconds: positive when they
    /// were too short, negative when they were too long.
    spec fn sleep_error(&self) -> int;

    /// What was left of the period when the call under way began, in
    /// nanoseconds.
    spec fn excess_time(&self) -> int;

    /// The error is within its bounds.
    spec fn wf(&self) -> bool;

    /// In every state that a pacer can get into, the error lies between a
    /// thirtieth of a second behind and the most that it can hold ahead.
    proof fn lemma_error_in_bounds(&self)
        requires
            self.wf(),
        ensures
            MIN_LAG <= self.sleep_error() <= MAX_LEAD,
    ;

    /// The first half of a call. A rate of zero asks for no pacing: nothing
    /// happens, and there is nothing to sleep or to wake from.
    fn sync(&mut self, frequency: Frequency) -> (pause: Option<Pause>)
        requires
            old(self).wf(),
        ensures
            final(self).wf(),
            final(self).sleep_error() == old(self).sleep_error(),
            frequency@ == 0 ==> pause.is_none() && final(self).excess_time() == old(
                self,
            ).excess_time(),
            frequency@ > 0 ==> pause.is_some(),
            pause matches Some(pause) ==> {
                &&& final(self).excess_time() == period_nanos(frequency@) - pause.elapsed
                &&& pause.sleep == sleep_nanos(final(self).excess_time(), old(self).sleep_error())
            },
    {
        proof {
            frequency.lemma_range();
        }
        if !frequency.is_zero() {
            Some(self.sync_impl(frequency))
        } else {
            None
        }
    }

    /// The first half of a call at a rate that is not zero: reads the clock,
    /// and works out what is left of the period and how long to sleep.
    fn sync_impl(&mut self, frequency: Frequency) -> (pause: Pause)
        requires
            old(self).wf(),
            frequency@ > 0,
        ensures
            final(self).wf(),
            final(self).sleep_error() == old(self).sleep_error(),
            final(self).excess_time() == period_nanos(frequency@) - pause.elapsed,
            pause.sleep == sleep_nanos(final(self).excess_time(), old(self).sleep_error()),
    ;

    /// The second half of a call, after the sleep: reads the clock again and
    /// corrects the error by what the sleep fell short of the time that was
    /// left. Gives the nanoseconds that the sleep took.
    fn wake(&mut self) -> (time_slept: u64)
        requires
            old(self).wf(),
        ensures
            final(self).wf(),
            final(self).excess_time() == old(self).excess_time(),
            final(self).sleep_error() == corrected_error(
                old(self).sleep_error(),
                old(self).excess_time(),
                time_slept as int,
            ),
    ;
}

/// A pacer that carries the error of its sleeps over from call to call.
pub struct OFClockSync<C: Clock> {
    clock: C,
    current_time: C::Instant,
    last_frame_time: C::Instant,
    sleep_error: i64,
    excess_time: i128,
}

/// The nanoseconds between two calls at a rate, which is not zero, of calls
/// per second.
pub fn period(frequency: Frequency) -> (nanos: u64)
    requires
        frequency@ > 0,
    ensures
        nanos == period_nanos(frequency@),
        nanos <= NANOS_PER_SEC * FREQUENCY_ONE,
{
    let bits = frequency.bits();
    let nanos = (NANOS_PER_SEC * FREQUENCY_ONE) / bits;
    assert(nanos <= NANOS_PER_SEC * FREQUENCY_ONE) by (nonlinear_arith)
        requires
            bits > 0,
            nanos == (NANOS_PER_SEC * FREQUENCY_ONE) / (bits as int),
    ;
    nanos
}

/// What a call makes of the time since the call before: what is left of the
/// period, and with it how long to sleep.
pub fn pause_for(frequency: Frequency, elapsed: u64, sleep_error: i64) -> (paused: (i128, Pause))
    requires
        frequency@ > 0,
        MIN_LAG <= sleep_error,
    ensures
        paused.0 == period_nanos(frequency@) - elapsed,
        paused.1.elapsed == elapsed,
        paused.1.sleep == sleep_nanos(paused.0 as int, sleep_error as int),
{
    let excess_time: i128 = period(frequency) as i128 - elapsed as i128;
    let wanted: i128 = excess_time + sleep_error as i128;
    let sleep: u64 = if wanted > 0 {
        wanted as u64
    } else {
        0
    };
    (excess_time, Pause { elapsed, sleep })
}

/// The error after a sleep that took `time_slept` nanoseconds.
pub fn corrected(sleep_error: i64, excess_time: i128, time_slept: u64) -> (error: i64)
    requires
        MIN_LAG <= sleep_error,
        -(u64::MAX as int) <= excess_time <= NANOS_PER_SEC * FREQUENCY_ONE,
    ensures
        error == corrected_error(sleep_error as int, excess_time as int, time_slept as int),
{
    let error: i128 = sleep_error as i128 + excess_time - time_slept as i128;
    if error < MIN_LAG as i128 {
        MIN_LAG
    } else if error > MAX_LEAD as i128 {
        MAX_LEAD
    } else {
        error as i64
    }
}

impl<C: Clock> OFClockSync<C> {
    /// The clock that the pacer reads.
    pub closed spec fn clock(&self) -> C {
        self.clock
    }

    /// The last reading of the clock.
    pub closed spec fn current_time(&self) -> C::Instant {
        self.current_time
    }

    /// The reading of the clock at which the period under way began.
    pub closed spec fn last_frame_time(&self) -> C::Instant {
        self.last_frame_time
    }

    /// A pacer on this clock, with no error yet, whose first period starts
    /// now.
    pub fn new(clock: C) -> (pacer: Self)
        ensures
            pacer.wf(),
            pacer.clock() == clock,
            pacer.sleep_error() == 0,
            pacer.excess_time() == 0,
    {
        let current_time = clock.now();
        let last_frame_time = clock.now();
        OFClockSync { current_time, last_frame_time, sleep_error: 0, excess_time: 0, clock }
    }
}

impl<C: Clock> ClockSync for OFClockSync<C> {
    closed spec fn sleep_error(&self) -> int {
        self.sleep_error as int
    }

    closed spec fn excess_time(&self) -> int {
        self.excess_time as int
    }

    closed spec fn wf(&self) -> bool {
        &&& MIN_LAG <= self.sleep_error
        &&& -(u64::MAX as int) <= self.excess_time <= NANOS_PER_SEC * FREQUENCY_ONE
    }

    proof fn lemma_error_in_bounds(&self) {
    }

    /// At a rate of zero the pacer stays as it is, and the clock is not read.
    /// At any other rate this is `sync_impl`.
    fn sync(&mut self, frequency: Frequency) -> (pause: Option<Pause>)
        ensures
            final(self).clock() == old(self).clock(),
            frequency@ == 0 ==> *final(self) == *old(self),
            frequency@ > 0 ==> final(self).last_frame_time() == old(self).current_time(),
            pause matches Some(pause) ==> (final(self).current_time().elapsed_since(
                final(self).last_frame_time(),
            ) matches Some(elapsed) ==> pause.elapsed == saturated(elapsed)),
    {
        proof {
            frequency.lemma_range();
        }
        if !frequency.is_zero() {
            Some(self.sync_impl(frequency))
        } else {
            None
        }
    }

    /// The period that ended with the last reading of the clock is over: the
    /// next one begins there. The time since the call before is the time from
    /// that reading to the reading of the clock that is taken now.
    fn sync_impl(&mut self, frequency: Frequency) -> (pause: Pause)
        ensures
            final(self).clock() == old(self).clock(),
            final(self).last_frame_time() == old(self).current_time(),
            final(self).current_time().elapsed_since(final(self).last_frame_time()) matches Some(
                elapsed,
            ) ==> pause.elapsed == saturated(elapsed),
    {
        self.last_frame_time = self.current_time;
        self.current_time = self.clock.now();
        let elapsed = self.current_time.nanos_since(self.last_frame_time);
        let (excess_time, pause) = pause_for(frequency, elapsed, self.sleep_error);
        self.excess_time = excess_time;
        pause
    }

    /// The time that the sleep took is the time from the reading of the clock
    /// before it to the reading that is taken now. The start of the period
    /// stays where it is.
    fn wake(&mut self) -> (time_slept: u64)
        ensures
            final(self).clock() == old(self).clock(),
            final(self).last_frame_time() == old(self).last_frame_time(),
            final(self).current_time().elapsed_since(old(self).current_time()) matches Some(
                elapsed,
            ) ==> time_slept == saturated(elapsed),
    {
        let before = self.current_time;
        self.current_time = self.clock.now();
        let time_slept = self.current_time.nanos_since(before);
        self.sleep_error = corrected(self.sleep_error, self.excess_time, time_slept);
        time_slept
    }
}

/// A pacer on the monotonic clock.
pub fn new_clock_sync() -> (pacer: OFClockSync<InstantClock>)
    ensures
        pacer.wf(),
        pacer.sleep_error() == 0,
        pacer.excess_time() == 0,
{
    OFClockSync::new(InstantClock)
}

} // verus!
