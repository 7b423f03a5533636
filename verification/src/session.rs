//! Session bookkeeping for the upstream site: when the session was last
//! validated, whether it is trusted, which user agent to present, and how
//! many refreshes have failed in a row.  The HTTP round trips themselves
//! are the runner's; every decision about them is made here.

use vstd::prelude::*;

use crate::types::{SessionConfig, MAX_TIMESTAMP};

verus! {

/// State of the upstream HTTP session.
pub struct SessionState {
    pub last_validated: Option<u64>,
    pub is_valid: bool,
    pub user_agent: String,
    pub failure_count: u32,
}

/// A read-only view of the session state.
pub struct SessionStats {
    pub is_valid: bool,
    pub last_validated: Option<u64>,
    pub failure_count: u32,
    pub user_agent: String,
}

impl SessionState {
    /// A fresh session: never validated, not trusted, first user agent.
    pub fn new(config: &SessionConfig) -> (r: Self)
        requires
            config.wf(),
        ensures
            r.last_validated is None,
            !r.is_valid,
            r.failure_count == 0,
            r.user_agent@ == config.user_agents@[0]@,
    {
        SessionState {
            last_validated: None,
            is_valid: false,
            user_agent: config.user_agents[0].clone(),
            failure_count: 0,
        }
    }

    /// A refresh is due when the session was never validated, its last
    /// validation is stale, it is marked invalid, or failures reached the
    /// configured bound.
    pub open spec fn spec_needs_refresh(self, config: SessionConfig, now: u64) -> bool {
        match self.last_validated {
            None => true,
            Some(t) => (now > t + config.validation_interval_secs) || !self.is_valid
                || self.failure_count >= config.max_failures,
        }
    }

    /// Decide whether the session must be refreshed before the next call.
    pub fn needs_refresh(&self, config: &SessionConfig, now: u64) -> (r: bool)
        requires
            now <= MAX_TIMESTAMP,
        ensures
            r == self.spec_needs_refresh(*config, now),
    {
        match self.last_validated {
            None => true,
            Some(t) => {
                let stale = if now > t {
                    now - t > config.validation_interval_secs
                } else {
                    false
                };
                stale || !self.is_valid || self.failure_count >= config.max_failures
            },
        }
    }

    /// Which user agent a refresh presents: rotation by failure count.
    pub open spec fn spec_rotation_index(self, config: SessionConfig) -> int {
        self.failure_count as int % config.user_agents@.len() as int
    }

    /// Pick the user agent for the next refresh.
    pub fn pick_user_agent<'a>(&self, config: &'a SessionConfig) -> (r: &'a String)
        requires
            config.wf(),
        ensures
            r@ == config.user_agents@[self.spec_rotation_index(*config)]@,
    {
        let idx = (self.failure_count as usize) % config.user_agents.len();
        &config.user_agents[idx]
    }

    /// A refresh came back 2xx: trust the session, remember the time and
    /// the agent that won, clear the failure count.
    pub fn note_refresh_success(&mut self, now: u64, agent: String)
        ensures
            final (self).last_validated == Some(now),
            final (self).is_valid,
            final (self).failure_count == 0,
            final (self).user_agent == agent,
    {
        self.last_validated = Some(now);
        self.is_valid = true;
        self.failure_count = 0;
        self.user_agent = agent;
    }

    /// A refresh came back non-2xx: one more failure, session untrusted,
    /// the last validation time unchanged.
    pub fn note_refresh_failure(&mut self)
        requires
            old(self).failure_count < u32::MAX,
        ensures
            final (self).failure_count == old(self).failure_count + 1,
            !final (self).is_valid,
            final (self).last_validated == old(self).last_validated,
            final (self).user_agent == old(self).user_agent,
    {
        self.failure_count = self.failure_count + 1;
        self.is_valid = false;
    }

    /// A lightweight validation probe counts as good when it answers 2xx,
    /// or 404 (the endpoint is reachable).
    pub fn probe_ok(status: u16) -> (r: bool)
        ensures
            r == (200 <= status < 300 || status == 404),
    {
        (200 <= status && status < 300) || status == 404
    }

    /// Record the outcome of a validation probe at time `now`.
    pub fn note_validation(&mut self, ok: bool, now: u64)
        requires
            !ok ==> old(self).failure_count < u32::MAX,
        ensures
            final (self).last_validated == Some(now),
            final (self).is_valid == ok,
            final (self).failure_count == if ok {
                0u32
            } else {
                (old(self).failure_count + 1) as u32
            },
            final (self).user_agent == old(self).user_agent,
    {
        self.last_validated = Some(now);
        self.is_valid = ok;
        if ok {
            self.failure_count = 0;
        } else {
            self.failure_count = self.failure_count + 1;
        }
    }

    /// Force a refresh on the next call.
    pub fn reset_session(&mut self)
        ensures
            final (self).last_validated is None,
            !final (self).is_valid,
            final (self).failure_count == 0,
            final (self).user_agent == old(self).user_agent,
    {
        self.last_validated = None;
        self.is_valid = false;
        self.failure_count = 0;
    }

    /// A snapshot of the session state.
    pub fn get_session_stats(&self) -> (r: SessionStats)
        ensures
            r.is_valid == self.is_valid,
            r.last_validated == self.last_validated,
            r.failure_count == self.failure_count,
            r.user_agent@ == self.user_agent@,
    {
        SessionStats {
            is_valid: self.is_valid,
            last_validated: self.last_validated,
            failure_count: self.failure_count,
            user_agent: self.user_agent.clone(),
        }
    }
}

} // verus!
