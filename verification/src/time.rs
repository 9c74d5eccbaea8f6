//! What is taken from the standard library's clock and durations.
//!
//! Lengths of time are [`Duration`]s and points in time are [`SystemTime`]s.
//! Neither can be looked into from a specification, so each is modelled by the
//! number of nanoseconds it stands for; the items below say how the functions of
//! the standard library act on that number.

use core::time::Duration;
use std::time::SystemTime;
use std::time::SystemTimeError;
use vstd::prelude::*;

verus! {

/// How long `d` is, in nanoseconds: all that a [`Duration`] holds.
pub uninterp spec fn duration_nanos(d: Duration) -> nat;

/// [`Duration::from_secs`] makes a duration of that many whole seconds.
pub assume_specification[ Duration::from_secs ](secs: u64) -> (d: Duration)
    ensures
        duration_nanos(d) == secs * 1_000_000_000,
;

/// [`Duration::as_secs`] gives the whole seconds of a duration and leaves the
/// fraction out.
pub assume_specification[ Duration::as_secs ](d: &Duration) -> (secs: u64)
    ensures
        secs == duration_nanos(*d) / 1_000_000_000,
;

/// A reading of the system clock.
#[verifier::external_type_specification]
#[verifier::external_body]
pub struct ExSystemTime(std::time::SystemTime);

/// What [`SystemTime::duration_since`] returns for a time that is later.
#[verifier::external_type_specification]
#[verifier::external_body]
pub struct ExSystemTimeError(std::time::SystemTimeError);

/// The nanoseconds from the Unix epoch to `t`, negative before it.
pub uninterp spec fn unix_nanos(t: SystemTime) -> int;

/// [`SystemTime::now`] reads the system clock. Nothing is known of what it shows.
pub assume_specification[ SystemTime::now ]() -> (t: SystemTime);

/// [`SystemTime::duration_since`], asked for the time since
/// [`std::time::UNIX_EPOCH`], gives that time, and an error for a time before the
/// epoch. What the error holds is left unsaid.
#[verifier::external_body]
fn since_unix_epoch(t: &SystemTime) -> (r: Result<Duration, SystemTimeError>)
    ensures
        r is Ok <==> unix_nanos(*t) >= 0,
        r matches Ok(d) ==> duration_nanos(d) == unix_nanos(*t),
{
    t.duration_since(std::time::UNIX_EPOCH)
}

/// The whole seconds from the Unix epoch to `t`; none if `t` is before it.
pub open spec fn unix_secs_of(t: SystemTime) -> int {
    if unix_nanos(t) >= 0 {
        unix_nanos(t) / 1_000_000_000
    } else {
        0
    }
}

/// The whole seconds from the Unix epoch to `t`; zero if `t` is before it.
#[must_use]
pub fn unix_secs_at(t: &SystemTime) -> (secs: u64)
    ensures
        secs == unix_secs_of(*t),
        unix_nanos(*t) < 0 ==> secs == 0,
        unix_nanos(*t) >= 0 ==> secs * 1_000_000_000 <= unix_nanos(*t) < secs * 1_000_000_000
            + 1_000_000_000,
{
    match since_unix_epoch(t) {
        Ok(d) => d.as_secs(),
        Err(_) => 0,
    }
}

} // verus!
