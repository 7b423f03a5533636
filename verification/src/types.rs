//! Data model of the scan engine: user scans, polling jobs, availability
//! snapshots and records, notification records, user projections, and the
//! engine's error and configuration types.  All fields are plain values;
//! timestamps are seconds since the Unix epoch.

use vstd::prelude::*;

use crate::dates::Date;

verus! {

/// Upper bound on timestamps the engine works with (9999-12-31T23:59:59Z);
/// keeps timestamp arithmetic inside `u64`.
pub const MAX_TIMESTAMP: u64 = 253_402_300_799;

/// Upper bound on configured durations (one year, in seconds).
pub const MAX_DURATION_SECS: u64 = 31_536_000;

/// Lifecycle status of a user scan.
#[derive(Clone, Copy, PartialEq, Eq, Structural, Debug)]
pub enum ScanStatus {
    Active,
    Paused,
    Completed,
    Cancelled,
}

/// Whether the user wants each notification channel.
#[derive(Clone, Copy, PartialEq, Eq, Structural, Debug)]
pub struct NotificationPreferences {
    pub email: bool,
    pub sms: bool,
}

/// A user-registered watch on a campground over a date window.  Owned by
/// the surrounding application; the engine only reads it, except for the
/// `notification_sent` latch.
#[derive(Clone, Debug)]
pub struct UserScan {
    pub id: u64,
    pub user_id: u64,
    pub campground_id: String,
    pub check_in_date: Date,
    pub check_out_date: Date,
    pub nights: u32,
    pub status: ScanStatus,
    pub notification_sent: bool,
    pub created_at: u64,
    pub updated_at: u64,
    pub expires_at: Option<u64>,
}

impl UserScan {
    /// Check-out strictly follows check-in, and `nights` is the length of
    /// the stay in days.
    pub open spec fn wf(self) -> bool {
        &&& self.check_in_date.wf()
        &&& self.check_out_date.wf()
        &&& self.check_in_date.spec_lt(self.check_out_date)
        &&& self.nights == self.check_out_date.day_index() - self.check_in_date.day_index()
    }

    /// A scan is eligible for polling and notification when it is active,
    /// its check-out date has not passed, and it has not expired.
    pub open spec fn spec_eligible(self, today: Date, now: u64) -> bool {
        &&& self.status == ScanStatus::Active
        &&& today.spec_le(self.check_out_date)
        &&& match self.expires_at {
            Some(t) => t > now,
            None => true,
        }
    }

    /// Decide eligibility of this scan at the given date and time.
    pub fn is_eligible(&self, today: &Date, now: u64) -> (r: bool)
        requires
            self.check_out_date.wf(),
            today.wf(),
        ensures
            r == self.spec_eligible(*today, now),
    {
        if !(matches!(self.status, ScanStatus::Active)) {
            return false;
        }
        if !today.le(&self.check_out_date) {
            return false;
        }
        match self.expires_at {
            Some(t) => t > now,
            None => true,
        }
    }
}

impl UserScan {
    /// Field-wise copy, equal to the original.
    pub fn duplicate(&self) -> (r: Self)
        ensures
            r == *self,
    {
        UserScan {
            id: self.id,
            user_id: self.user_id,
            campground_id: self.campground_id.clone(),
            check_in_date: self.check_in_date,
            check_out_date: self.check_out_date,
            nights: self.nights,
            status: self.status,
            notification_sent: self.notification_sent,
            created_at: self.created_at,
            updated_at: self.updated_at,
            expires_at: self.expires_at,
        }
    }
}

/// Scheduler bookkeeping for one campground being watched.
#[derive(Clone, Debug)]
pub struct PollingJob {
    pub campground_id: String,
    pub active_scan_count: u32,
    pub last_polled: Option<u64>,
    pub next_poll_at: u64,
    pub poll_frequency_minutes: u32,
    pub consecutive_errors: u32,
    pub is_being_polled: bool,
    pub priority: u32,
}

impl PollingJob {
    /// The poll frequency stays inside a year, keeping next-poll
    /// arithmetic inside `u64`.
    pub open spec fn wf(self) -> bool {
        self.poll_frequency_minutes <= 527_040  // one year in minutes
    }

    /// Field-wise copy, equal to the original.
    pub fn duplicate(&self) -> (r: Self)
        ensures
            r == *self,
    {
        PollingJob {
            campground_id: self.campground_id.clone(),
            active_scan_count: self.active_scan_count,
            last_polled: self.last_polled,
            next_poll_at: self.next_poll_at,
            poll_frequency_minutes: self.poll_frequency_minutes,
            consecutive_errors: self.consecutive_errors,
            is_being_polled: self.is_being_polled,
            priority: self.priority,
        }
    }
}

/// Availability of one site on one date.  Prices are held in cents.
#[derive(Clone, Debug)]
pub struct SiteAvailability {
    pub site_id: String,
    pub site_name: String,
    pub available: bool,
    pub date: Date,
    pub price_cents: Option<u64>,
}

impl SiteAvailability {
    pub open spec fn wf(self) -> bool {
        self.date.wf()
    }

    /// Field-wise copy, equal to the original.
    pub fn duplicate(&self) -> (r: Self)
        ensures
            r == *self,
    {
        SiteAvailability {
            site_id: self.site_id.clone(),
            site_name: self.site_name.clone(),
            available: self.available,
            date: self.date,
            price_cents: self.price_cents,
        }
    }
}

/// Copy a site list element by element; the copy equals the original.
pub fn duplicate_sites(v: &Vec<SiteAvailability>) -> (r: Vec<SiteAvailability>)
    ensures
        r@ == v@,
{
    let mut r: Vec<SiteAvailability> = Vec::new();
    let mut i: usize = 0;
    while i < v.len()
        invariant
            0 <= i <= v@.len(),
            r@ =~= v@.subrange(0, i as int),
        decreases v@.len() - i,
    {
        r.push(v[i].duplicate());
        proof {
            assert(r@ =~= v@.subrange(0, i + 1 as int));
        }
        i = i + 1;
    }
    proof {
        assert(r@ =~= v@);
    }
    r
}

/// One poll's snapshot for a campground: the site/date tuples it reported.
#[derive(Clone, Debug)]
pub struct CampgroundAvailability {
    pub campground_id: String,
    pub available_sites: Vec<SiteAvailability>,
    pub total_sites: usize,
    pub checked_at: u64,
}

impl CampgroundAvailability {
    pub open spec fn wf(self) -> bool {
        forall|i: int| 0 <= i < self.available_sites@.len() ==> (
        #[trigger] self.available_sites@[i]).wf()
    }

    /// Field-wise copy: same campground, same site sequence, same counts.
    pub fn duplicate(&self) -> (r: Self)
        ensures
            r.campground_id == self.campground_id,
            r.available_sites@ == self.available_sites@,
            r.total_sites == self.total_sites,
            r.checked_at == self.checked_at,
    {
        CampgroundAvailability {
            campground_id: self.campground_id.clone(),
            available_sites: duplicate_sites(&self.available_sites),
            total_sites: self.total_sites,
            checked_at: self.checked_at,
        }
    }
}

/// Outcome of the last check of one (campground, date) key.
#[derive(Clone, Copy, PartialEq, Eq, Structural, Debug)]
pub enum CheckStatus {
    Success,
    Error,
}

/// Durable cache row for one (campground, date) key.
#[derive(Clone, Debug)]
pub struct AvailabilityRecord {
    pub campground_id: String,
    pub date: Date,
    pub available_sites: u32,
    pub total_sites: u32,
    pub availability_data: Option<Vec<SiteAvailability>>,
    pub check_status: CheckStatus,
    pub error_message: Option<String>,
    pub last_checked: u64,
}

impl AvailabilityRecord {
    /// A successful check always carries site data and no error message.
    pub open spec fn wf(self) -> bool {
        &&& self.date.wf()
        &&& self.check_status == CheckStatus::Success ==> self.availability_data is Some
            && self.error_message is None
    }
}

/// Notification channel.
#[derive(Clone, Copy, PartialEq, Eq, Structural, Debug)]
pub enum NotificationKind {
    Email,
    Sms,
}

/// Outcome of one dispatch attempt.
#[derive(Clone, Copy, PartialEq, Eq, Structural, Debug)]
pub enum NotificationStatus {
    Sent,
    Failed,
}

/// Append-only log row for one dispatch attempt.
#[derive(Clone, Debug)]
pub struct NotificationRecord {
    pub user_id: u64,
    pub user_scan_id: Option<u64>,
    pub kind: NotificationKind,
    pub recipient: String,
    pub subject: Option<String>,
    pub message: String,
    pub availability_details: CampgroundAvailability,
    pub status: NotificationStatus,
    pub sent_at: Option<u64>,
    pub external_id: Option<String>,
    pub created_at: u64,
}

impl NotificationRecord {
    /// Sent rows carry an external id and a sent time; failed rows carry
    /// neither.  Only emails carry a subject.
    pub open spec fn wf(self) -> bool {
        &&& (self.status == NotificationStatus::Sent) == (self.external_id is Some)
        &&& (self.status == NotificationStatus::Sent) == (self.sent_at is Some)
        &&& (self.subject is Some) ==> self.kind == NotificationKind::Email
    }
}

/// Projection of a user row that the notifier reads.
#[derive(Clone, Debug)]
pub struct User {
    pub id: u64,
    pub email: String,
    pub name: String,
    pub phone: Option<String>,
    pub email_verified: bool,
    pub phone_verified: bool,
    pub preferences: NotificationPreferences,
}

/// Errors of the scan engine.
#[derive(Clone, Debug)]
pub enum ScanError {
    /// Database failure, with the driver's message.
    Database(String),
    /// A request failed validation.
    Validation(String),
    /// Scan not found.
    NotFound,
    /// Caller does not own the scan.
    Unauthorized,
    /// Check-out date does not follow check-in date.
    InvalidDateRange,
    /// Campground not found.
    CampgroundNotFound,
    /// Upstream API failure: HTTP status and response body.
    ApiError(u16, String),
    /// Upstream asked us to slow down.
    RateLimited,
    /// Upstream rejected our session.
    AuthenticationFailed,
    /// Malformed upstream or cached data.
    DataFormat(String),
    /// Bad engine configuration.
    ConfigError(String),
    /// Transport-level network failure.
    Network(String),
}

/// Errors of the notification pipeline.
#[derive(Clone, Debug)]
pub enum NotificationError {
    /// Database failure, with the driver's message.
    Database(String),
    /// Email transport failure.
    Email(String),
    /// SMS transport failure.
    Sms(String),
}

/// Tunables of the scan executor.  Durations are in seconds.
#[derive(Clone, Copy, Debug)]
pub struct ScanExecutorConfig {
    /// Minimum spacing between upstream calls.
    pub min_api_interval_secs: u64,
    /// Upstream calls allowed per rolling hour.
    pub max_calls_per_hour: u32,
    /// Scheduler tick interval.
    pub poll_check_interval_secs: u64,
    /// Default spacing between polls of one campground.
    pub default_poll_frequency_secs: u64,
    /// Consecutive errors that trip a job into backoff.
    pub max_consecutive_errors: u32,
    /// Cooldown after a job trips.
    pub error_backoff_secs: u64,
}

impl ScanExecutorConfig {
    pub open spec fn wf(self) -> bool {
        &&& 0 < self.min_api_interval_secs <= MAX_DURATION_SECS
        &&& 0 < self.poll_check_interval_secs <= MAX_DURATION_SECS
        &&& 0 < self.default_poll_frequency_secs <= MAX_DURATION_SECS
        &&& 0 < self.error_backoff_secs <= MAX_DURATION_SECS
        &&& 0 < self.max_consecutive_errors
        &&& 0 < self.max_calls_per_hour
    }
}

impl Default for ScanExecutorConfig {
    /// The documented defaults: 5 s spacing, 1000 calls per hour, 30 s
    /// tick, 15 min poll frequency, 5 errors, 1 h backoff.
    fn default() -> (r: Self)
        ensures
            r.wf(),
            r.min_api_interval_secs == 5,
            r.max_calls_per_hour == 1000,
            r.poll_check_interval_secs == 30,
            r.default_poll_frequency_secs == 900,
            r.max_consecutive_errors == 5,
            r.error_backoff_secs == 3600,
    {
        ScanExecutorConfig {
            min_api_interval_secs: 5,
            max_calls_per_hour: 1000,
            poll_check_interval_secs: 30,
            default_poll_frequency_secs: 900,
            max_consecutive_errors: 5,
            error_backoff_secs: 3600,
        }
    }
}

/// Tunables of the session manager.  Durations are in seconds.
#[derive(Clone, Debug)]
pub struct SessionConfig {
    /// How long a validated session stays fresh.
    pub validation_interval_secs: u64,
    /// Failures tolerated before a forced refresh.
    pub max_failures: u32,
    /// Root URL of the upstream site.
    pub base_url: String,
    /// User-agent strings rotated across refreshes.
    pub user_agents: Vec<String>,
}

impl SessionConfig {
    pub open spec fn wf(self) -> bool {
        &&& 0 < self.validation_interval_secs <= MAX_DURATION_SECS
        &&& 0 < self.max_failures
        &&& 1 <= self.user_agents@.len()
    }
}

impl Default for SessionConfig {
    /// The documented defaults: 30 min freshness, 3 failures, and a pool
    /// of three desktop-class user agents.
    fn default() -> (r: Self)
        ensures
            r.wf(),
            r.validation_interval_secs == 1800,
            r.max_failures == 3,
            r.user_agents@.len() == 3,
    {
        let mut agents: Vec<String> = Vec::new();
        agents.push(String::from_str(
            "Mozilla/5.0 (Macintosh; Intel Mac OS X 10_15_7) AppleWebKit/537.36 (KHTML, like Gecko) Chrome/119.0.0.0 Safari/537.36",
        ));
        agents.push(String::from_str(
            "Mozilla/5.0 (Windows NT 10.0; Win64; x64) AppleWebKit/537.36 (KHTML, like Gecko) Chrome/119.0.0.0 Safari/537.36",
        ));
        agents.push(String::from_str(
            "Mozilla/5.0 (X11; Linux x86_64) AppleWebKit/537.36 (KHTML, like Gecko) Chrome/119.0.0.0 Safari/537.36",
        ));
        SessionConfig {
            validation_interval_secs: 1800,
            max_failures: 3,
            base_url: String::from_str("https://www.recreation.gov"),
            user_agents: agents,
        }
    }
}

} // verus!
