use campsite_tracker::accounts::{
    new_user_scan, parse_scan_status, scan_status_name, validate_phone_number, CreateScanRequest,
};
use campsite_tracker::codes::{
    format_phone_e164, generate_verification_code, generate_verification_token, VerificationStore,
};
use campsite_tracker::notify::{
    compose_notification_content, create_sms_message, EmailService, MockEmailService,
    MockSmsService, ScanDetails, SmsService,
};
use campsite_tracker::store::AvailabilityStore;
use campsite_tracker::types::{
    CampgroundAvailability, CheckStatus, ScanError, ScanStatus, SiteAvailability,
};
use campsite_tracker::Date;

fn d(year: u32, month: u32, day: u32) -> Date {
    Date { year, month, day }
}

fn site(id: &str, date: Date, available: bool, price_cents: Option<u64>) -> SiteAvailability {
    SiteAvailability {
        site_id: id.to_string(),
        site_name: id.to_string(),
        available,
        date,
        price_cents,
    }
}

fn details() -> ScanDetails {
    ScanDetails {
        campground_id: "G1".to_string(),
        campground_name: "Pines".to_string(),
        check_in_date: d(2025, 6, 10),
        check_out_date: d(2025, 6, 12),
        nights: 2,
    }
}

#[test]
fn write_then_read_returns_the_written_sites_by_date() {
    let mut store = AvailabilityStore::new();
    let avail = CampgroundAvailability {
        campground_id: "G1".to_string(),
        available_sites: vec![
            site("S1", d(2025, 6, 10), false, None),
            site("S2", d(2025, 6, 10), true, None),
            site("S1", d(2025, 6, 11), true, None),
        ],
        total_sites: 2,
        checked_at: 1_000,
    };
    store.write_snapshot(&avail);
    let snap = store.read_range(&"G1".to_string(), &d(2025, 6, 1), &d(2025, 6, 30));
    let day10 = snap.get(&d(2025, 6, 10)).expect("sites for 06-10");
    assert_eq!(day10.len(), 2);
    assert_eq!(day10[0].site_id, "S1");
    assert_eq!(day10[1].site_id, "S2");
    let day11 = snap.get(&d(2025, 6, 11)).expect("sites for 06-11");
    assert_eq!(day11.len(), 1);
    assert!(snap.get(&d(2025, 6, 12)).is_none());
    // reads outside the window see nothing
    let out = store.read_range(&"G1".to_string(), &d(2025, 7, 1), &d(2025, 7, 31));
    assert!(out.get(&d(2025, 6, 10)).is_none());
}

#[test]
fn error_rows_keep_stale_data_and_success_clears_them() {
    let mut store = AvailabilityStore::new();
    let avail = CampgroundAvailability {
        campground_id: "G1".to_string(),
        available_sites: vec![site("S1", d(2025, 6, 10), true, None)],
        total_sites: 1,
        checked_at: 1_000,
    };
    store.write_snapshot(&avail);
    store.write_error(&"G1".to_string(), d(2025, 6, 10), &"boom".to_string(), 2_000);
    let rec = store.find(&"G1".to_string(), &d(2025, 6, 10)).unwrap();
    assert_eq!(rec.check_status, CheckStatus::Error);
    assert_eq!(rec.error_message.as_deref(), Some("boom"));
    assert!(rec.availability_data.is_some());
    // error rows are invisible to the diff's range read
    let snap = store.read_range(&"G1".to_string(), &d(2025, 6, 1), &d(2025, 6, 30));
    assert!(snap.get(&d(2025, 6, 10)).is_none());
    // a later success clears the error
    store.write_snapshot(&CampgroundAvailability { checked_at: 3_000, ..avail });
    let rec = store.find(&"G1".to_string(), &d(2025, 6, 10)).unwrap();
    assert_eq!(rec.check_status, CheckStatus::Success);
    assert!(rec.error_message.is_none());
    // every success row carries data
    for r in &store.records {
        if r.check_status == CheckStatus::Success {
            assert!(r.availability_data.is_some());
        }
    }
}

#[test]
fn email_content_matches_the_documented_format() {
    let avail = CampgroundAvailability {
        campground_id: "G1".to_string(),
        available_sites: vec![site("S1", d(2025, 6, 11), true, Some(2500))],
        total_sites: 1,
        checked_at: 1_000,
    };
    let (subject, body) = compose_notification_content(&details(), &avail);
    assert_eq!(subject, "🏕️ Campsite Available: Pines (06/10 - 06/12)");
    assert_eq!(
        body,
        "Great news! New campsites are available for your search:\n\n\
         🏕️ Campground: Pines\n\
         📅 Your Dates: June 10, 2025 to June 12, 2025 (2 nights)\n\n\
         Available Sites:\n\
         • S1 on 06/11/2025 ($25.00)\n\n\
         Visit recreation.gov to book your site:\n\
         https://www.recreation.gov/camping/campgrounds/G1\n\n\
         This notification was sent because you set up a scan for this campground. \
         You can manage your scans in the Campsite Tracker app.\n"
    );
}

#[test]
fn long_site_lists_show_the_first_five() {
    let mut sites = Vec::new();
    for day in 10..=16 {
        sites.push(site(&format!("S{}", day), d(2025, 6, day), true, None));
    }
    let avail = CampgroundAvailability {
        campground_id: "G1".to_string(),
        available_sites: sites,
        total_sites: 7,
        checked_at: 1_000,
    };
    let (_, body) = compose_notification_content(&details(), &avail);
    assert!(body.contains("7 sites available (showing first 5):"));
    assert!(body.contains("• S14 on 06/14/2025"));
    assert!(!body.contains("• S15"));
}

#[test]
fn sms_counts_the_available_sites() {
    let avail = CampgroundAvailability {
        campground_id: "G1".to_string(),
        available_sites: vec![
            site("S1", d(2025, 6, 11), true, None),
            site("S2", d(2025, 6, 11), false, None),
            site("S3", d(2025, 6, 11), true, None),
        ],
        total_sites: 3,
        checked_at: 1_000,
    };
    let sms = create_sms_message(&details(), &avail);
    assert_eq!(
        sms,
        "🏕️ 2 campsites available at Pines for 06/10-06/12! \
         Check reservation site to book. -Campsite Tracker"
    );
}

#[test]
fn mock_transports_answer_synthetic_ids() {
    let email_id = MockEmailService.send_email("u@example.com", "s", "b").unwrap();
    assert!(email_id.starts_with("mock-email-"));
    assert_eq!(email_id.len(), 47);
    let sms_id = MockSmsService.send_sms("+15551234567", "m").unwrap();
    assert!(sms_id.starts_with("mock-sms-"));
    assert_eq!(sms_id.len(), 45);
}

#[test]
fn phone_numbers_validate_by_digit_count() {
    assert!(validate_phone_number("5551234567"));
    assert!(validate_phone_number("(555) 123-4567"));
    assert!(validate_phone_number("1-555-123-4567"));
    assert!(validate_phone_number("+1 555 123 4567"));
    assert!(!validate_phone_number("2-555-123-4567"));
    assert!(!validate_phone_number("123456789"));
    assert!(!validate_phone_number("123456789012"));
    assert!(!validate_phone_number(""));
}

#[test]
fn phone_numbers_format_to_e164() {
    assert_eq!(format_phone_e164("+15551234567"), "+15551234567");
    assert_eq!(format_phone_e164("1 (555) 123-4567"), "+15551234567");
    assert_eq!(format_phone_e164("555.123.4567"), "+5551234567");
}

#[test]
fn scan_statuses_round_trip_their_names() {
    assert_eq!(parse_scan_status("active"), Some(ScanStatus::Active));
    assert_eq!(parse_scan_status("paused"), Some(ScanStatus::Paused));
    assert_eq!(parse_scan_status("completed"), Some(ScanStatus::Completed));
    assert_eq!(parse_scan_status("cancelled"), Some(ScanStatus::Cancelled));
    assert_eq!(parse_scan_status("archived"), None);
    assert_eq!(parse_scan_status(""), None);
    for s in [ScanStatus::Active, ScanStatus::Paused, ScanStatus::Completed, ScanStatus::Cancelled]
    {
        assert_eq!(parse_scan_status(scan_status_name(s)), Some(s));
    }
}

#[test]
fn scan_creation_validates_the_date_range() {
    let ok = new_user_scan(
        &CreateScanRequest {
            campground_id: "G1".to_string(),
            campground_name: "Pines".to_string(),
            check_in_date: d(2025, 6, 10),
            check_out_date: d(2025, 6, 12),
        },
        1,
        7,
        500,
    )
    .unwrap();
    assert_eq!(ok.nights, 2);
    assert_eq!(ok.status, ScanStatus::Active);
    assert!(!ok.notification_sent);

    let swapped = new_user_scan(
        &CreateScanRequest {
            campground_id: "G1".to_string(),
            campground_name: "Pines".to_string(),
            check_in_date: d(2025, 6, 12),
            check_out_date: d(2025, 6, 12),
        },
        1,
        7,
        500,
    );
    assert!(matches!(swapped, Err(ScanError::InvalidDateRange)));
}

#[test]
fn verification_codes_expire_and_spend_attempts() {
    let mut store = VerificationStore::new();
    store.store_verification_code(&"k".to_string(), &"123456".to_string(), 10, 1_000);

    // wrong guesses spend attempts
    assert_eq!(store.verify_code(&"k".to_string(), &"000000".to_string(), 1_100), Ok(false));
    assert_eq!(store.verify_code(&"k".to_string(), &"000000".to_string(), 1_100), Ok(false));
    // the right code is consumed
    assert_eq!(store.verify_code(&"k".to_string(), &"123456".to_string(), 1_100), Ok(true));
    assert_eq!(
        store.verify_code(&"k".to_string(), &"123456".to_string(), 1_100),
        Err("Verification code not found".to_string())
    );

    // a fourth attempt drops the code
    store.store_verification_code(&"k".to_string(), &"123456".to_string(), 10, 1_000);
    for _ in 0..3 {
        assert_eq!(store.verify_code(&"k".to_string(), &"000000".to_string(), 1_100), Ok(false));
    }
    assert_eq!(
        store.verify_code(&"k".to_string(), &"123456".to_string(), 1_100),
        Err("Too many verification attempts".to_string())
    );

    // lapsed codes are refused and dropped
    store.store_verification_code(&"k".to_string(), &"123456".to_string(), 10, 1_000);
    assert_eq!(
        store.verify_code(&"k".to_string(), &"123456".to_string(), 1_000 + 601),
        Err("Verification code has expired".to_string())
    );
    assert_eq!(
        store.verify_code(&"k".to_string(), &"123456".to_string(), 1_000),
        Err("Verification code not found".to_string())
    );
}

#[test]
fn generated_codes_and_tokens_have_the_documented_shape() {
    for _ in 0..20 {
        let code = generate_verification_code();
        assert_eq!(code.len(), 6);
        assert!(code.chars().all(|c| c.is_ascii_digit()));
        let token = generate_verification_token();
        assert_eq!(token.len(), 32);
        assert!(token.chars().all(|c| c.is_ascii_alphanumeric()));
    }
}
