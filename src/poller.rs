//! The poller's record of its last run, read by the status endpoint.
use vstd::prelude::*;

verus! {

/// Start, finish and error of the last polling cycle; timestamps are seconds
/// since the epoch.
#[derive(Debug)]
pub struct SchedulerState {
    pub refresh_minutes: u64,
    pub last_poll_started: Option<i64>,
    pub last_poll_finished: Option<i64>,
    pub last_error: Option<String>,
}

impl SchedulerState {
    /// A state for a poller that runs every `refresh_minutes` (at least one).
    pub fn new(refresh_minutes: u64) -> (r: SchedulerState)
        ensures
            r.refresh_minutes == if refresh_minutes < 1 {
                1
            } else {
                refresh_minutes
            },
            r.last_poll_started is None,
            r.last_poll_finished is None,
            r.last_error is None,
    {
        SchedulerState {
            refresh_minutes: if refresh_minutes < 1 {
                1
            } else {
                refresh_minutes
            },
            last_poll_started: None,
            last_poll_finished: None,
            last_error: None,
        }
    }

    pub fn record_start(&mut self, at: i64)
        ensures
            final(self).last_poll_started == Some(at),
            final(self).last_poll_finished == old(self).last_poll_finished,
            final(self).last_error == old(self).last_error,
            final(self).refresh_minutes == old(self).refresh_minutes,
    {
        self.last_poll_started = Some(at);
    }

    pub fn record_finish(&mut self, finished: i64, error: Option<String>)
        ensures
            final(self).last_poll_finished == Some(finished),
            final(self).last_error == error,
            final(self).last_poll_started == old(self).last_poll_started,
            final(self).refresh_minutes == old(self).refresh_minutes,
    {
        self.last_poll_finished = Some(finished);
        self.last_error = error;
    }

    /// Stale once more than two refresh periods have passed since the last
    /// cycle finished; never before one has.
    pub fn is_stale(&self, now: i64) -> (r: bool)
        ensures
            r == match self.last_poll_finished {
                Some(f) => now - f > 2 * 60 * self.refresh_minutes,
                None => false,
            },
    {
        match self.last_poll_finished {
            Some(f) => (now as i128) - (f as i128) > 120 * (self.refresh_minutes as i128),
            None => false,
        }
    }
}

} // verus!
