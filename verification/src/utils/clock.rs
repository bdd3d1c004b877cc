use std::time::{Duration, Instant, SystemTime, SystemTimeError};

use vstd::prelude::*;

verus! {

/// A point in time of the operating system's monotonic clock.
#[verifier::external_type_specification]
#[verifier::external_body]
pub struct ExInstant(Instant);

/// A point in time of the operating system's wall clock.
#[verifier::external_type_specification]
#[verifier::external_body]
pub struct ExSystemTime(SystemTime);

/// The error of asking the wall clock for the time between two points that
/// are in the wrong order.
#[verifier::external_type_specification]
#[verifier::external_body]
pub struct ExSystemTimeError(SystemTimeError);

/// The whole nanoseconds that a duration holds: what `Duration::as_nanos`
/// gives for it.
pub uninterp spec fn duration_nanos(duration: Duration) -> nat;

/// The duration that `Duration::from_nanos` makes of a number of nanoseconds.
pub uninterp spec fn duration_of_nanos(nanos: u64) -> Duration;

/// The time from `earlier` to `later` on the monotonic clock: what
/// `Instant::saturating_duration_since` gives for the two.
pub uninterp spec fn instant_elapsed(later: Instant, earlier: Instant) -> Duration;

/// The point in time that lies `duration` before `instant` on the monotonic
/// clock: what `Instant::checked_sub` gives for the two.
pub uninterp spec fn instant_minus(instant: Instant, duration: Duration) -> Option<Instant>;

/// The time from `earlier` to `later` on the wall clock: what
/// `SystemTime::duration_since` gives for the two.
pub uninterp spec fn system_time_elapsed(later: SystemTime, earlier: SystemTime) -> Result<
    Duration,
    SystemTimeError,
>;

/// A number of nanoseconds, or as many of them as sixty-four bits hold.
pub open spec fn saturated(nanos: nat) -> u64 {
    if nanos > u64::MAX {
        u64::MAX
    } else {
        nanos as u64
    }
}

/// `Instant::now`: the present reading of the monotonic clock. Nothing is
/// claimed of it.
#[verifier::external_body]
fn instant_now() -> Instant {
    Instant::now()
}

/// `Instant::saturating_duration_since`: the time from `earlier` to `later`,
/// which std gives as zero when `earlier` is the later one. The contract only
/// gives the result its name: the same two points give the same time.
#[verifier::external_body]
fn instant_duration_since(later: Instant, earlier: Instant) -> (elapsed: Duration)
    ensures
        elapsed == instant_elapsed(later, earlier),
{
    later.saturating_duration_since(earlier)
}

/// `SystemTime::now`: the present reading of the wall clock. Nothing is
/// claimed of it.
#[verifier::external_body]
fn system_time_now() -> SystemTime {
    SystemTime::now()
}

/// `SystemTime::duration_since`: the time from `earlier` to `later`, or an
/// error when `earlier` is the later one. The contract only gives the result
/// its name: the same two points give the same answer.
#[verifier::external_body]
fn system_time_duration_since(later: SystemTime, earlier: SystemTime) -> (elapsed: Result<
    Duration,
    SystemTimeError,
>)
    ensures
        elapsed == system_time_elapsed(later, earlier),
{
    later.duration_since(earlier)
}

/// `Duration::as_nanos`: the whole nanoseconds in a duration. The contract
/// only gives the result its name: the same duration holds the same number.
#[verifier::external_body]
fn duration_as_nanos(duration: Duration) -> (nanos: u128)
    ensures
        nanos == duration_nanos(duration),
{
    duration.as_nanos()
}

/// `Duration::from_nanos`: the duration of that many nanoseconds. The
/// contract only gives the result its name.
#[verifier::external_body]
fn duration_from_nanos(nanos: u64) -> (duration: Duration)
    ensures
        duration == duration_of_nanos(nanos),
{
    Duration::from_nanos(nanos)
}

/// `Instant::checked_sub`: the point in time that lies `duration` before
/// `instant`, or `None` where the clock cannot express it. The contract only
/// gives the result its name.
#[verifier::external_body]
fn instant_checked_sub(instant: Instant, duration: Duration) -> (before: Option<Instant>)
    ensures
        before == instant_minus(instant, duration),
{
    instant.checked_sub(duration)
}

/// A number of nanoseconds, or as many of them as sixty-four bits hold.
pub fn saturating_nanos(nanos: u128) -> (held: u64)
    ensures
        held == saturated(nanos as nat),
{
    if nanos > u64::MAX as u128 {
        u64::MAX
    } else {
        nanos as u64
    }
}

/// The whole nanoseconds in a duration, or as many as fit.
fn nanos_of(duration: Duration) -> (nanos: u64)
    ensures
        nanos == saturated(duration_nanos(duration)),
{
    saturating_nanos(duration_as_nanos(duration))
}

/// A point in time from which an earlier one of the same clock can be
/// subtracted.
pub trait SubtractableInstant: Sized + Copy {
    /// What is known of the nanoseconds from `earlier` to `self`: nothing,
    /// unless the kind of instant says more.
    open spec fn elapsed_since(self, earlier: Self) -> Option<nat> {
        None
    }

    /// The nanoseconds from `earlier` to `self`: zero when `earlier` is in
    /// fact the later one, and as many as fit when they are too many.
    fn nanos_since(self, earlier: Self) -> (nanos: u64)
        ensures
            self.elapsed_since(earlier) matches Some(elapsed) ==> nanos == saturated(elapsed),
    ;
}

/// A point in time from which a length of time can be subtracted as well.
pub trait ConstructibleInstant: SubtractableInstant {
    /// The point in time that lies `nanos` nanoseconds before `self`, if the
    /// clock can express it.
    fn nanos_before(self, nanos: u64) -> Option<Self>;
}

/// A source of points in time.
pub trait Clock {
    type Instant: SubtractableInstant;

    /// The present.
    fn now(&self) -> Self::Instant;
}

/// A point in time of the wall clock.
#[derive(Clone, Copy, Debug, PartialEq, Eq, PartialOrd, Ord)]
pub struct SystemInstant(SystemTime);

impl View for SystemInstant {
    type V = SystemTime;

    closed spec fn view(&self) -> SystemTime {
        self.0
    }
}

impl SubtractableInstant for Instant {
    open spec fn elapsed_since(self, earlier: Self) -> Option<nat> {
        Some(duration_nanos(instant_elapsed(self, earlier)))
    }

    /// The time that the monotonic clock gives from `earlier` to `self`, in
    /// nanoseconds, as far as they fit.
    fn nanos_since(self, earlier: Self) -> (nanos: u64)
        ensures
            nanos == saturated(duration_nanos(instant_elapsed(self, earlier))),
    {
        nanos_of(instant_duration_since(self, earlier))
    }
}

impl ConstructibleInstant for Instant {
    /// The point that the monotonic clock gives for going back by the
    /// duration of `nanos` nanoseconds.
    fn nanos_before(self, nanos: u64) -> (before: Option<Self>)
        ensures
            before == instant_minus(self, duration_of_nanos(nanos)),
    {
        instant_checked_sub(self, duration_from_nanos(nanos))
    }
}

impl SystemInstant {
    /// The time that the wall clock gives from `earlier` to `self`, in
    /// nanoseconds, as far as they fit, or `None` when the clock says that
    /// `earlier` is the later one.
    pub fn checked_nanos_since(self, earlier: Self) -> (nanos: Option<u64>)
        ensures
            nanos == match system_time_elapsed(self@, earlier@) {
                Ok(duration) => Some(saturated(duration_nanos(duration))),
                Err(_) => None,
            },
    {
        match system_time_duration_since(self.0, earlier.0) {
            Ok(duration) => Some(nanos_of(duration)),
            Err(_) => None,
        }
    }
}

impl SubtractableInstant for SystemInstant {
    open spec fn elapsed_since(self, earlier: Self) -> Option<nat> {
        match system_time_elapsed(self@, earlier@) {
            Ok(duration) => Some(duration_nanos(duration)),
            Err(_) => Some(0),
        }
    }

    /// The time that the wall clock gives from `earlier` to `self`, in
    /// nanoseconds, as far as they fit. The wall clock can be set back: where
    /// it says that `earlier` is the later one, no time has passed. A caller
    /// who has to tell that case apart asks `checked_nanos_since`.
    fn nanos_since(self, earlier: Self) -> (nanos: u64)
        ensures
            nanos == saturated(self.elapsed_since(earlier).unwrap()),
    {
        match self.checked_nanos_since(earlier) {
            Some(nanos) => nanos,
            None => 0,
        }
    }
}

/// The wall clock, which can be set back while the program runs.
#[derive(Default)]
pub struct SystemClock;

impl Clock for SystemClock {
    type Instant = SystemInstant;

    fn now(&self) -> SystemInstant {
        SystemInstant(system_time_now())
    }
}

/// The monotonic clock, which never runs backwards.
#[derive(Default)]
pub struct InstantClock;

impl Clock for InstantClock {
    type Instant = Instant;

    fn now(&self) -> Instant {
        instant_now()
    }
}

} // verus!
