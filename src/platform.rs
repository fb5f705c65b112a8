//! Platform-specific parts: the two platform families each have a module with
//! the same functions, and the shared parts stand here.
use vstd::prelude::*;

pub mod unix;
pub mod windows;

verus! {

/// Whether a migration only reports what it would do, or does it.
#[derive(Copy, Clone, Debug, PartialEq, Eq, Structural)]
pub enum MigrationKind {
    DryRun,
    ForReal,
}

impl MigrationKind {
    pub fn for_real(&self) -> (r: bool)
        ensures
            r == (*self == MigrationKind::ForReal),
    {
        match self {
            MigrationKind::ForReal => true,
            MigrationKind::DryRun => false,
        }
    }
}

pub const MS_PER_SEC: u64 = 1000;

pub const NS_PER_MS: u64 = 1_000_000;

/// Milliseconds since the epoch of a clock reading of `sec` seconds and `nsec`
/// nanoseconds, saturated at the largest `u64`; a reading before the epoch
/// (a negative part) gives `0`.
pub open spec fn timespec_millis(sec: int, nsec: int) -> nat {
    if sec < 0 || nsec < 0 {
        0
    } else {
        let ms = sec * 1000 + nsec / 1_000_000;
        if ms > u64::MAX { u64::MAX as nat } else { ms as nat }
    }
}

/// Converts a clock reading to milliseconds since the epoch.
pub fn timespec_to_millis(sec: i64, nsec: i32) -> (r: u64)
    ensures
        r == timespec_millis(sec as int, nsec as int),
        sec < 0 || nsec < 0 ==> r == 0,
{
    if sec < 0 || nsec < 0 {
        return 0;
    }
    let s = sec as u64;
    let frac = nsec as u64 / NS_PER_MS;
    match s.checked_mul(MS_PER_SEC) {
        Some(ms) => ms.saturating_add(frac),
        None => u64::MAX,
    }
}

/// Relies on time::now_utc and time::Tm::to_timespec: the current time as
/// seconds and nanoseconds since the epoch; the nanoseconds are checked by
/// Timespec::new to lie below one second.
#[verifier::external_body]
fn now_timespec() -> (r: (i64, i32))
    ensures
        0 <= r.1 < 1_000_000_000,
{
    let t = time::now_utc().to_timespec();
    (t.sec, t.nsec)
}

/// The current time in milliseconds since the epoch; `0` where the clock
/// reads a time before the epoch.
pub fn current_time() -> (r: u64)
    ensures
        exists|sec: i64, nsec: i32| 0 <= nsec < 1_000_000_000 && r == timespec_millis(sec as int, nsec as int),
{
    let (sec, nsec) = now_timespec();
    timespec_to_millis(sec, nsec)
}

} // verus!
