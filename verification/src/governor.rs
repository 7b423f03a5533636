//! The rate governor: a process-wide hourly call budget and a minimum
//! spacing between upstream calls.  The governor never sleeps itself; it
//! says how long the caller must wait.

use vstd::prelude::*;

use crate::types::{ScanExecutorConfig, MAX_TIMESTAMP};

verus! {

/// Shared rate-limiting state: when the last upstream call was made and
/// how many calls the current rolling hour has seen.
pub struct RateGovernor {
    pub last_api_call: Option<u64>,
    pub calls_this_hour: u32,
}

impl RateGovernor {
    /// Timestamps stay inside the supported range.
    pub open spec fn wf(self) -> bool {
        match self.last_api_call {
            Some(t) => t <= MAX_TIMESTAMP,
            None => true,
        }
    }

    /// The hourly budget still has room.
    pub open spec fn spec_can_call(self, config: ScanExecutorConfig) -> bool {
        self.calls_this_hour < config.max_calls_per_hour
    }

    /// How long a caller must wait before the next call: the rest of the
    /// minimum interval, or nothing once it has elapsed.
    pub open spec fn spec_required_wait(self, config: ScanExecutorConfig, now: u64) -> int {
        match self.last_api_call {
            None => 0,
            Some(t) => if now < t + config.min_api_interval_secs {
                t + config.min_api_interval_secs - now
            } else {
                0
            },
        }
    }

    /// Fresh governor: no call made, empty hour.
    pub fn new() -> (r: Self)
        ensures
            r.wf(),
            r.last_api_call is None,
            r.calls_this_hour == 0,
    {
        RateGovernor { last_api_call: None, calls_this_hour: 0 }
    }

    /// Whether the hourly budget allows another call.
    pub fn can_make_api_call(&self, config: &ScanExecutorConfig) -> (r: bool)
        ensures
            r == self.spec_can_call(*config),
    {
        self.calls_this_hour < config.max_calls_per_hour
    }

    /// Seconds the caller must sleep before the next upstream call.
    pub fn required_wait(&self, config: &ScanExecutorConfig, now: u64) -> (r: u64)
        requires
            self.wf(),
            config.wf(),
        ensures
            r == self.spec_required_wait(*config, now),
    {
        match self.last_api_call {
            None => 0,
            Some(t) => {
                if now < t {
                    // clock went backwards: wait out the whole interval
                    // plus the gap
                    (t - now) + config.min_api_interval_secs
                } else if now - t < config.min_api_interval_secs {
                    config.min_api_interval_secs - (now - t)
                } else {
                    0
                }
            },
        }
    }

    /// Record one upstream call at time `now`.
    pub fn record_call(&mut self, now: u64)
        requires
            old(self).calls_this_hour < u32::MAX,
            now <= MAX_TIMESTAMP,
        ensures
            final (self).wf(),
            final (self).last_api_call == Some(now),
            final (self).calls_this_hour == old(self).calls_this_hour + 1,
    {
        self.last_api_call = Some(now);
        self.calls_this_hour = self.calls_this_hour + 1;
    }

    /// The last call is more than an hour old (or was never made).
    pub open spec fn spec_hour_stale(self, now: u64) -> bool {
        match self.last_api_call {
            None => true,
            Some(t) => t + 3600 < now,
        }
    }

    /// Reset the hourly counter once the last call is over an hour old.
    pub fn reset_if_stale(&mut self, now: u64)
        requires
            old(self).wf(),
        ensures
            final (self).wf(),
            final (self).last_api_call == old(self).last_api_call,
            final (self).calls_this_hour == if old(self).spec_hour_stale(now) {
                0u32
            } else {
                old(self).calls_this_hour
            },
    {
        let stale = match self.last_api_call {
            None => true,
            Some(t) => t < u64::MAX - 3600 && t + 3600 < now,
        };
        proof {
            match self.last_api_call {
                Some(t) => {
                    assert(t <= MAX_TIMESTAMP);
                    assert(t < u64::MAX - 3600);
                },
                None => {},
            }
        }
        if stale {
            self.calls_this_hour = 0;
        }
    }
}

} // verus!
