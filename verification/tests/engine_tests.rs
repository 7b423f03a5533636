use campsite_tracker::engine::{
    calculate_date_range, eligible_scans_for_campground, filter_relevant_sites,
    handle_poll_failure, handle_poll_success, send_notifications_for_new_availability,
};
use campsite_tracker::notify::{EmailService, MockEmailService, MockSmsService, SmsService};
use campsite_tracker::store::AvailabilityStore;
use campsite_tracker::types::{
    CampgroundAvailability, CheckStatus, NotificationError, NotificationKind, NotificationRecord,
    NotificationPreferences, NotificationStatus, PollingJob, ScanExecutorConfig, ScanStatus,
    SiteAvailability, User, UserScan,
};
use campsite_tracker::Date;

fn d(year: u32, month: u32, day: u32) -> Date {
    Date { year, month, day }
}

fn site(id: &str, date: Date, available: bool) -> SiteAvailability {
    SiteAvailability {
        site_id: id.to_string(),
        site_name: id.to_string(),
        available,
        date,
        price_cents: None,
    }
}

fn scan(id: u64, user_id: u64, cg: &str, check_in: Date, check_out: Date) -> UserScan {
    UserScan {
        id,
        user_id,
        campground_id: cg.to_string(),
        check_in_date: check_in,
        check_out_date: check_out,
        nights: 2,
        status: ScanStatus::Active,
        notification_sent: false,
        created_at: 0,
        updated_at: 0,
        expires_at: None,
    }
}

fn user(id: u64, email_pref: bool, sms_pref: bool) -> User {
    User {
        id,
        email: "u@example.com".to_string(),
        name: "U".to_string(),
        phone: Some("+15551234567".to_string()),
        email_verified: true,
        phone_verified: true,
        preferences: NotificationPreferences { email: email_pref, sms: sms_pref },
    }
}

fn job(cg: &str) -> PollingJob {
    PollingJob {
        campground_id: cg.to_string(),
        active_scan_count: 1,
        last_polled: None,
        next_poll_at: 0,
        poll_frequency_minutes: 15,
        consecutive_errors: 0,
        is_being_polled: true,
        priority: 1,
    }
}

fn g1_snapshot(s1_available_on_11: bool, checked_at: u64) -> CampgroundAvailability {
    CampgroundAvailability {
        campground_id: "G1".to_string(),
        available_sites: vec![
            site("S1", d(2025, 6, 10), false),
            site("S1", d(2025, 6, 11), s1_available_on_11),
            site("S1", d(2025, 6, 12), false),
        ],
        total_sites: 1,
        checked_at,
    }
}

struct FailingSms;

impl SmsService for FailingSms {
    fn send_sms(&self, _to: &str, _message: &str) -> Result<String, NotificationError> {
        Err(NotificationError::Sms("gateway down".to_string()))
    }
}

struct FailingEmail;

impl EmailService for FailingEmail {
    fn send_email(
        &self,
        _to: &str,
        _subject: &str,
        _body: &str,
    ) -> Result<String, NotificationError> {
        Err(NotificationError::Email("relay down".to_string()))
    }
}

#[test]
fn scan_eligibility_hinges_on_checkout_and_expiry() {
    let today = d(2025, 6, 10);
    // check-out today: still eligible
    let mut s = scan(1, 1, "G1", d(2025, 6, 1), d(2025, 6, 10));
    assert!(s.is_eligible(&today, 100));
    // check-out yesterday: not eligible
    s.check_out_date = d(2025, 6, 9);
    assert!(!s.is_eligible(&today, 100));
    // paused scans are out
    s.check_out_date = d(2025, 6, 20);
    s.status = ScanStatus::Paused;
    assert!(!s.is_eligible(&today, 100));
    // expired scans are out
    s.status = ScanStatus::Active;
    s.expires_at = Some(100);
    assert!(!s.is_eligible(&today, 100));
    s.expires_at = Some(101);
    assert!(s.is_eligible(&today, 100));
}

#[test]
fn window_is_the_union_of_scan_windows() {
    let today = d(2025, 6, 1);
    let scans = vec![
        scan(1, 1, "G1", d(2025, 6, 10), d(2025, 6, 12)),
        scan(2, 2, "G1", d(2025, 6, 11), d(2025, 6, 14)),
    ];
    assert_eq!(calculate_date_range(&scans, &today), (d(2025, 6, 10), d(2025, 6, 14)));
    assert_eq!(calculate_date_range(&vec![], &today), (today, today));
}

#[test]
fn eligible_scans_filter_by_campground() {
    let today = d(2025, 6, 1);
    let scans = vec![
        scan(1, 1, "G1", d(2025, 6, 10), d(2025, 6, 12)),
        scan(2, 2, "G2", d(2025, 6, 10), d(2025, 6, 12)),
    ];
    let picked = eligible_scans_for_campground(&scans, &"G1".to_string(), &today, 100);
    assert_eq!(picked.len(), 1);
    assert_eq!(picked[0].id, 1);
}

#[test]
fn relevant_sites_use_the_half_open_window() {
    let sites = vec![
        site("A", d(2025, 6, 9), true),
        site("B", d(2025, 6, 10), true),
        site("C", d(2025, 6, 11), true),
        site("D", d(2025, 6, 12), true),
    ];
    let kept = filter_relevant_sites(&sites, &d(2025, 6, 10), &d(2025, 6, 12));
    let ids: Vec<&str> = kept.iter().map(|s| s.site_id.as_str()).collect();
    assert_eq!(ids, vec!["B", "C"]);
}

#[test]
fn single_new_site_sends_one_email_and_latches() {
    let config = ScanExecutorConfig::default();
    let today = d(2025, 6, 9);
    let mut store = AvailabilityStore::new();
    // previous cache: all sites unavailable
    store.write_snapshot(&g1_snapshot(false, 1_000));
    let mut scans = vec![scan(1, 7, "G1", d(2025, 6, 10), d(2025, 6, 12))];
    let mut log: Vec<NotificationRecord> = Vec::new();
    let users = vec![user(7, true, false)];
    let current = g1_snapshot(true, 2_000);

    let updated = handle_poll_success(
        &mut store,
        &mut scans,
        &mut log,
        &users,
        &job("G1"),
        &"Pines".to_string(),
        &current,
        &d(2025, 6, 10),
        &d(2025, 6, 12),
        Some(&MockEmailService),
        Option::<&MockSmsService>::None,
        &today,
        2_000,
        &config,
    );

    // exactly one sent email record, naming the site and date
    assert_eq!(log.len(), 1);
    assert_eq!(log[0].kind, NotificationKind::Email);
    assert_eq!(log[0].status, NotificationStatus::Sent);
    assert_eq!(log[0].user_id, 7);
    assert_eq!(log[0].user_scan_id, Some(1));
    assert!(log[0].message.contains("S1"));
    assert!(log[0].message.contains("06/11/2025"));
    assert!(log[0].external_id.is_some());
    assert_eq!(log[0].sent_at, Some(2_000));
    // the latch is set
    assert!(scans[0].notification_sent);
    // one cache row per date with the right counts
    for (day, avail) in [(10, 0), (11, 1), (12, 0)] {
        let rec = store
            .find(&"G1".to_string(), &d(2025, 6, day))
            .expect("row for each date");
        assert_eq!(rec.check_status, CheckStatus::Success);
        assert_eq!(rec.available_sites, avail);
        assert_eq!(rec.total_sites, 1);
        assert_eq!(rec.last_checked, 2_000);
        assert!(rec.availability_data.is_some());
        assert!(rec.error_message.is_none());
    }
    // the job comes back clean
    assert_eq!(updated.consecutive_errors, 0);
    assert!(!updated.is_being_polled);
    assert_eq!(updated.next_poll_at, 2_000 + 15 * 60);
    assert_eq!(updated.last_polled, Some(2_000));
}

#[test]
fn replaying_the_same_snapshot_sends_nothing_new() {
    let config = ScanExecutorConfig::default();
    let today = d(2025, 6, 9);
    let mut store = AvailabilityStore::new();
    store.write_snapshot(&g1_snapshot(false, 1_000));
    let mut scans = vec![scan(1, 7, "G1", d(2025, 6, 10), d(2025, 6, 12))];
    let mut log: Vec<NotificationRecord> = Vec::new();
    let users = vec![user(7, true, false)];

    let first = g1_snapshot(true, 2_000);
    handle_poll_success(
        &mut store,
        &mut scans,
        &mut log,
        &users,
        &job("G1"),
        &"Pines".to_string(),
        &first,
        &d(2025, 6, 10),
        &d(2025, 6, 12),
        Some(&MockEmailService),
        Option::<&MockSmsService>::None,
        &today,
        2_000,
        &config,
    );
    assert_eq!(log.len(), 1);

    // second pass over the identical upstream snapshot
    let second = g1_snapshot(true, 3_000);
    handle_poll_success(
        &mut store,
        &mut scans,
        &mut log,
        &users,
        &job("G1"),
        &"Pines".to_string(),
        &second,
        &d(2025, 6, 10),
        &d(2025, 6, 12),
        Some(&MockEmailService),
        Option::<&MockSmsService>::None,
        &today,
        3_000,
        &config,
    );
    // zero additional records; latch stays; last_checked advanced
    assert_eq!(log.len(), 1);
    assert!(scans[0].notification_sent);
    let rec = store.find(&"G1".to_string(), &d(2025, 6, 11)).unwrap();
    assert_eq!(rec.last_checked, 3_000);
}

#[test]
fn rate_limited_poll_counts_an_error_and_writes_an_error_row() {
    let config = ScanExecutorConfig::default();
    let today = d(2025, 6, 9);
    let mut store = AvailabilityStore::new();
    let j = job("G1");
    let updated = handle_poll_failure(
        &mut store,
        &j,
        &"Rate limited by external API".to_string(),
        &today,
        5_000,
        &config,
    );
    assert_eq!(updated.consecutive_errors, 1);
    assert_eq!(updated.next_poll_at, 5_000 + 15 * 60);
    assert!(!updated.is_being_polled);
    let rec = store.find(&"G1".to_string(), &today).expect("error row at today");
    assert_eq!(rec.check_status, CheckStatus::Error);
    assert_eq!(rec.error_message.as_deref(), Some("Rate limited by external API"));
    assert_eq!(rec.last_checked, 5_000);

    // at the trip threshold the backoff applies instead
    let mut nearly = job("G1");
    nearly.consecutive_errors = config.max_consecutive_errors - 1;
    let tripped = handle_poll_failure(
        &mut store,
        &nearly,
        &"Rate limited by external API".to_string(),
        &today,
        6_000,
        &config,
    );
    assert_eq!(tripped.consecutive_errors, config.max_consecutive_errors);
    assert_eq!(tripped.next_poll_at, 6_000 + config.error_backoff_secs);
}

#[test]
fn partial_transport_failure_still_latches() {
    let today = d(2025, 6, 9);
    let mut scans = vec![scan(1, 7, "G1", d(2025, 6, 10), d(2025, 6, 12))];
    let mut log: Vec<NotificationRecord> = Vec::new();
    let users = vec![user(7, true, true)];
    let new_sites = vec![site("S1", d(2025, 6, 11), true)];

    send_notifications_for_new_availability(
        &mut scans,
        &mut log,
        &users,
        &new_sites,
        &"Pines".to_string(),
        Some(&MockEmailService),
        Some(&FailingSms),
        &today,
        2_000,
    );

    assert_eq!(log.len(), 2);
    assert_eq!(log[0].kind, NotificationKind::Email);
    assert_eq!(log[0].status, NotificationStatus::Sent);
    assert_eq!(log[1].kind, NotificationKind::Sms);
    assert_eq!(log[1].status, NotificationStatus::Failed);
    assert!(log[1].external_id.is_none());
    assert!(log[1].sent_at.is_none());
    // at least one transport succeeded, so the scan is marked notified
    assert!(scans[0].notification_sent);
}

#[test]
fn failing_email_aborts_the_sms_and_leaves_the_latch() {
    let today = d(2025, 6, 9);
    let mut scans = vec![scan(1, 7, "G1", d(2025, 6, 10), d(2025, 6, 12))];
    let mut log: Vec<NotificationRecord> = Vec::new();
    let users = vec![user(7, true, true)];
    let new_sites = vec![site("S1", d(2025, 6, 11), true)];

    send_notifications_for_new_availability(
        &mut scans,
        &mut log,
        &users,
        &new_sites,
        &"Pines".to_string(),
        Some(&FailingEmail),
        Some(&MockSmsService),
        &today,
        2_000,
    );

    // the failing email is logged and aborts the scan's remaining sends
    assert_eq!(log.len(), 1);
    assert_eq!(log[0].kind, NotificationKind::Email);
    assert_eq!(log[0].status, NotificationStatus::Failed);
    assert!(!scans[0].notification_sent);
}

#[test]
fn out_of_window_site_updates_cache_but_sends_nothing() {
    let config = ScanExecutorConfig::default();
    let today = d(2025, 6, 9);
    let mut store = AvailabilityStore::new();
    let mut scans = vec![scan(1, 7, "G1", d(2025, 6, 10), d(2025, 6, 12))];
    let mut log: Vec<NotificationRecord> = Vec::new();
    let users = vec![user(7, true, false)];
    let current = CampgroundAvailability {
        campground_id: "G1".to_string(),
        available_sites: vec![site("S1", d(2025, 6, 20), true)],
        total_sites: 1,
        checked_at: 2_000,
    };

    handle_poll_success(
        &mut store,
        &mut scans,
        &mut log,
        &users,
        &job("G1"),
        &"Pines".to_string(),
        &current,
        &d(2025, 6, 10),
        &d(2025, 6, 20),
        Some(&MockEmailService),
        Option::<&MockSmsService>::None,
        &today,
        2_000,
        &config,
    );

    assert!(log.is_empty());
    assert!(!scans[0].notification_sent);
    let rec = store.find(&"G1".to_string(), &d(2025, 6, 20)).expect("cache updated");
    assert_eq!(rec.available_sites, 1);
}

#[test]
fn two_scans_share_one_poll_but_only_the_matching_window_is_notified() {
    let config = ScanExecutorConfig::default();
    let today = d(2025, 6, 9);
    let mut store = AvailabilityStore::new();
    let mut scans = vec![
        scan(1, 7, "G1", d(2025, 6, 10), d(2025, 6, 12)),
        scan(2, 8, "G1", d(2025, 6, 11), d(2025, 6, 14)),
    ];
    let mut log: Vec<NotificationRecord> = Vec::new();
    let mut u2 = user(8, true, false);
    u2.email = "u2@example.com".to_string();
    let users = vec![user(7, true, false), u2];
    let current = CampgroundAvailability {
        campground_id: "G1".to_string(),
        available_sites: vec![site("S1", d(2025, 6, 13), true)],
        total_sites: 1,
        checked_at: 2_000,
    };

    handle_poll_success(
        &mut store,
        &mut scans,
        &mut log,
        &users,
        &job("G1"),
        &"Pines".to_string(),
        &current,
        &d(2025, 6, 10),
        &d(2025, 6, 14),
        Some(&MockEmailService),
        Option::<&MockSmsService>::None,
        &today,
        2_000,
        &config,
    );

    assert_eq!(log.len(), 1);
    assert_eq!(log[0].user_id, 8);
    assert_eq!(log[0].user_scan_id, Some(2));
    assert_eq!(log[0].recipient, "u2@example.com");
    assert!(!scans[0].notification_sent);
    assert!(scans[1].notification_sent);
}
