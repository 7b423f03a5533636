use campsite_tracker::governor::RateGovernor;
use campsite_tracker::scheduler::{
    job_after_error, job_after_success, job_due, plan_tick, select_due_jobs, InFlightSet,
};
use campsite_tracker::session::SessionState;
use campsite_tracker::types::{PollingJob, ScanExecutorConfig, SessionConfig};

fn job(id: &str, priority: u32, next_poll_at: u64) -> PollingJob {
    PollingJob {
        campground_id: id.to_string(),
        active_scan_count: 1,
        last_polled: None,
        next_poll_at,
        poll_frequency_minutes: 15,
        consecutive_errors: 0,
        is_being_polled: false,
        priority,
    }
}

#[test]
fn selection_orders_by_priority_then_next_poll() {
    let config = ScanExecutorConfig::default();
    let jobs = vec![job("low", 1, 50), job("high", 9, 80), job("mid", 5, 10)];
    let picked = select_due_jobs(&jobs, 100, &config);
    let ids: Vec<&str> = picked.iter().map(|j| j.campground_id.as_str()).collect();
    assert_eq!(ids, vec!["high", "mid", "low"]);
}

#[test]
fn priority_tie_earlier_next_poll_wins() {
    let config = ScanExecutorConfig::default();
    let jobs = vec![job("later", 5, 90), job("earlier", 5, 10)];
    let picked = select_due_jobs(&jobs, 100, &config);
    let ids: Vec<&str> = picked.iter().map(|j| j.campground_id.as_str()).collect();
    assert_eq!(ids, vec!["earlier", "later"]);
}

#[test]
fn selection_filters_ineligible_jobs() {
    let config = ScanExecutorConfig::default();
    let mut not_due = job("not-due", 5, 500);
    not_due.next_poll_at = 500;
    let mut no_scans = job("no-scans", 5, 10);
    no_scans.active_scan_count = 0;
    let mut held = job("held", 5, 10);
    held.is_being_polled = true;
    let mut tripped = job("tripped", 5, 10);
    tripped.consecutive_errors = config.max_consecutive_errors;
    let jobs = vec![not_due, no_scans, held, tripped, job("due", 5, 10)];
    let picked = select_due_jobs(&jobs, 100, &config);
    assert_eq!(picked.len(), 1);
    assert_eq!(picked[0].campground_id, "due");
}

#[test]
fn tripped_job_stays_out_until_cleared() {
    let config = ScanExecutorConfig::default();
    let mut j = job("g", 5, 10);
    j.consecutive_errors = config.max_consecutive_errors - 1;
    let now = 1_000;
    let after = job_after_error(&j, now, &config);
    assert_eq!(after.consecutive_errors, config.max_consecutive_errors);
    // trip threshold met: backoff pushes the next poll a full hour out
    assert_eq!(after.next_poll_at, now + config.error_backoff_secs);
    // and the filter keeps it out even after that time passes
    assert!(!job_due(&after, after.next_poll_at + 10_000, &config));
}

#[test]
fn error_below_threshold_retries_at_poll_frequency() {
    let config = ScanExecutorConfig::default();
    let j = job("g", 5, 10);
    let now = 1_000;
    let after = job_after_error(&j, now, &config);
    assert_eq!(after.consecutive_errors, 1);
    assert_eq!(after.next_poll_at, now + 15 * 60);
    assert!(!after.is_being_polled);
}

#[test]
fn success_clears_the_error_count() {
    let config = ScanExecutorConfig::default();
    let mut j = job("g", 5, 10);
    j.consecutive_errors = 3;
    j.is_being_polled = true;
    let after = job_after_success(&j, 2_000, &config);
    assert_eq!(after.consecutive_errors, 0);
    assert!(!after.is_being_polled);
    assert_eq!(after.last_polled, Some(2_000));
    assert_eq!(after.next_poll_at, 2_000 + 15 * 60);
}

#[test]
fn in_flight_set_excludes_duplicates() {
    let mut set = InFlightSet::new();
    assert!(!set.contains(&"G1".to_string()));
    set.claim("G1".to_string(), 100);
    assert!(set.contains(&"G1".to_string()));
    set.claim("G2".to_string(), 101);
    assert!(set.contains(&"G2".to_string()));
    set.release(&"G1".to_string());
    assert!(!set.contains(&"G1".to_string()));
    assert!(set.contains(&"G2".to_string()));
    set.release(&"missing".to_string());
    assert!(set.contains(&"G2".to_string()));
}

#[test]
fn tick_plan_skips_in_flight_and_respects_budget() {
    let config = ScanExecutorConfig::default();
    let jobs = vec![job("a", 9, 1), job("b", 8, 1), job("c", 7, 1)];
    let sorted = select_due_jobs(&jobs, 100, &config);
    let mut inflight = InFlightSet::new();
    inflight.claim("b".to_string(), 50);
    let claims = plan_tick(&sorted, &inflight, 10, 50);
    assert_eq!(claims, vec!["a".to_string(), "c".to_string()]);

    // a closed hourly gate admits nothing
    let none = plan_tick(&sorted, &InFlightSet::new(), 0, 50);
    assert!(none.is_empty());

    // the per-tick cap limits admissions
    let one = plan_tick(&sorted, &InFlightSet::new(), 10, 1);
    assert_eq!(one, vec!["a".to_string()]);
}

#[test]
fn governor_spaces_and_budgets_calls() {
    let config = ScanExecutorConfig::default();
    let mut gov = RateGovernor::new();
    assert!(gov.can_make_api_call(&config));
    assert_eq!(gov.required_wait(&config, 1_000), 0);
    gov.record_call(1_000);
    assert_eq!(gov.required_wait(&config, 1_002), 3);
    assert_eq!(gov.required_wait(&config, 1_005), 0);
    assert_eq!(gov.calls_this_hour, 1);
    // within the hour the counter stays
    gov.reset_if_stale(1_000 + 3600);
    assert_eq!(gov.calls_this_hour, 1);
    // an hour later it resets
    gov.reset_if_stale(1_000 + 3601);
    assert_eq!(gov.calls_this_hour, 0);
}

#[test]
fn governor_closes_the_gate_at_the_hourly_budget() {
    let mut config = ScanExecutorConfig::default();
    config.max_calls_per_hour = 2;
    let mut gov = RateGovernor::new();
    gov.record_call(10);
    assert!(gov.can_make_api_call(&config));
    gov.record_call(20);
    assert!(!gov.can_make_api_call(&config));
}

#[test]
fn test_session_manager_creation() {
    let config = SessionConfig::default();
    let manager = SessionState::new(&config);
    let stats = manager.get_session_stats();

    assert!(!stats.is_valid);
    assert!(stats.last_validated.is_none());
    assert_eq!(stats.failure_count, 0);
}

#[test]
fn test_session_validation_needed() {
    let config = SessionConfig::default();
    let mut session = SessionState::new(&config);

    // a fresh session always needs a refresh
    assert!(session.needs_refresh(&config, 1_000));

    // a failed refresh counts against the session
    session.note_refresh_failure();
    let stats = session.get_session_stats();
    assert_eq!(stats.failure_count, 1);
    assert!(!stats.is_valid);
}

#[test]
fn session_rotates_agents_and_recovers() {
    let config = SessionConfig::default();
    let mut session = SessionState::new(&config);
    assert_eq!(session.pick_user_agent(&config), &config.user_agents[0]);
    session.note_refresh_failure();
    assert_eq!(session.pick_user_agent(&config), &config.user_agents[1]);
    session.note_refresh_failure();
    assert_eq!(session.pick_user_agent(&config), &config.user_agents[2]);
    session.note_refresh_failure();
    assert_eq!(session.pick_user_agent(&config), &config.user_agents[0]);

    let agent = session.pick_user_agent(&config).clone();
    session.note_refresh_success(5_000, agent);
    assert!(session.get_session_stats().is_valid);
    assert_eq!(session.get_session_stats().failure_count, 0);
    assert!(!session.needs_refresh(&config, 5_000 + 60));
    // the validation interval lapses
    assert!(session.needs_refresh(&config, 5_000 + 1801));
    // a probe that answers 404 still proves the endpoint reachable
    assert!(SessionState::probe_ok(200));
    assert!(SessionState::probe_ok(404));
    assert!(!SessionState::probe_ok(403));
    // a failed probe counts a failure; a good one clears them
    session.note_validation(false, 6_000);
    assert_eq!(session.get_session_stats().failure_count, 1);
    assert!(!session.get_session_stats().is_valid);
    session.note_validation(true, 6_100);
    assert_eq!(session.get_session_stats().failure_count, 0);
    assert!(session.get_session_stats().is_valid);
    session.reset_session();
    assert!(session.needs_refresh(&config, 5_000));
}
