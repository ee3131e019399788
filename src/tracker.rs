use vstd::prelude::*;

use crate::clock::{advanced_timestamp, elapsed_seconds, Clock};

verus! {

/// Relies on `std::time::SystemTime::now` and `duration_since(UNIX_EPOCH)`:
/// whole seconds since the Unix epoch, or zero when the system clock is set
/// before it. Nothing is promised of the value.
#[verifier::external_body]
pub fn get_current_timestamp() -> (r: u64) {
    match std::time::SystemTime::now().duration_since(std::time::UNIX_EPOCH) {
        Ok(d) => d.as_secs(),
        Err(_) => 0,
    }
}

/// The checkpoint of the virtual clock: the wall-clock second at which the
/// clock system value was last written or materialised.
#[derive(Debug)]
pub struct SysvarTracker {
    pub last_clock_update: u64,
}

impl Default for SysvarTracker {
    fn default() -> (r: SysvarTracker)
        ensures
            r.last_clock_update == 0,
    {
        SysvarTracker { last_clock_update: 0 }
    }
}

impl SysvarTracker {
    pub fn new() -> (r: SysvarTracker)
        ensures
            r.last_clock_update == 0,
    {
        SysvarTracker { last_clock_update: 0 }
    }

    /// Moves the checkpoint to the wall-clock time now.
    pub fn refresh(&mut self) {
        let now = get_current_timestamp();
        self.refresh_last_clock_update(now);
    }

    /// Moves the checkpoint to `now`.
    pub fn refresh_last_clock_update(&mut self, now: u64)
        ensures
            final(self).last_clock_update == now,
    {
        self.last_clock_update = now;
    }

    /// Advances `clock` by the seconds elapsed from the checkpoint to `now`
    /// (none if `now` lies before it), saturating at `i64::MAX`, and moves
    /// the checkpoint to `now`. Only the time field changes.
    pub fn refresh_with_clock(&mut self, clock: &mut Clock, now: u64)
        ensures
            final(clock).unix_timestamp == advanced_timestamp(
                old(clock).unix_timestamp,
                old(self).last_clock_update,
                now,
            ),
            final(clock).slot == old(clock).slot,
            final(clock).epoch_start_timestamp == old(clock).epoch_start_timestamp,
            final(clock).epoch == old(clock).epoch,
            final(clock).leader_schedule_epoch == old(clock).leader_schedule_epoch,
            final(self).last_clock_update == now,
    {
        let elapsed = now.saturating_sub(self.last_clock_update);
        assert(elapsed == elapsed_seconds(self.last_clock_update, now));
        let sum: i128 = clock.unix_timestamp as i128 + elapsed as i128;
        clock.unix_timestamp = if sum > i64::MAX as i128 {
            i64::MAX
        } else {
            sum as i64
        };
        self.last_clock_update = now;
    }
}

} // verus!
