use campsite_tracker::codec::{classify_http_status, decode_status, parse_date_prefix, HttpStatusClass};
use campsite_tracker::Date;

#[test]
fn test_parse_availability_status() {
    // current API format
    assert_eq!(decode_status("Available"), (true, None));
    assert_eq!(decode_status("Reserved"), (false, None));
    assert_eq!(decode_status("Not Available"), (false, None));
    assert_eq!(decode_status("Not Reservable"), (false, None));
    assert_eq!(decode_status("Walk-up"), (false, None));

    // legacy format
    assert_eq!(decode_status("A"), (true, None));
    assert_eq!(decode_status("R"), (false, None));
    assert_eq!(decode_status("X"), (false, None));
    assert_eq!(decode_status("$25.00"), (true, Some(2500)));
    assert_eq!(decode_status("$50.50"), (true, Some(5050)));
    assert_eq!(decode_status("unknown"), (false, None));
}

#[test]
fn decode_is_total_on_edge_inputs() {
    // every input yields a defined (available, price) pair
    assert_eq!(decode_status(""), (false, None));
    assert_eq!(decode_status("W"), (false, None));
    assert_eq!(decode_status("N"), (false, None));
    assert_eq!(decode_status("$"), (true, None));
    assert_eq!(decode_status("$abc"), (true, None));
    assert_eq!(decode_status("$5"), (true, Some(500)));
    assert_eq!(decode_status("$5."), (true, Some(500)));
    assert_eq!(decode_status("$.75"), (true, Some(75)));
    assert_eq!(decode_status("$1.239"), (true, Some(123)));
    assert_eq!(decode_status("available"), (false, None));
    assert_eq!(decode_status("🏕️"), (false, None));
}

#[test]
fn date_prefix_parses_date_time_keys() {
    assert_eq!(
        parse_date_prefix("2025-06-11T00:00:00Z"),
        Some(Date { year: 2025, month: 6, day: 11 })
    );
    assert_eq!(
        parse_date_prefix("2024-02-29T00:00:00Z"),
        Some(Date { year: 2024, month: 2, day: 29 })
    );
    assert_eq!(parse_date_prefix("2025-02-29T00:00:00Z"), None);
    assert_eq!(parse_date_prefix("2025-13-01T00:00:00Z"), None);
    assert_eq!(parse_date_prefix("2025-00-01T00:00:00Z"), None);
    assert_eq!(parse_date_prefix("not-a-date"), None);
    assert_eq!(parse_date_prefix("2025-06-1"), None);
    assert_eq!(parse_date_prefix("2025/06/11T00:00:00Z"), None);
}

#[test]
fn http_statuses_classify_per_table() {
    assert_eq!(classify_http_status(200), HttpStatusClass::Success);
    assert_eq!(classify_http_status(204), HttpStatusClass::Success);
    assert_eq!(classify_http_status(429), HttpStatusClass::RateLimited);
    assert_eq!(classify_http_status(401), HttpStatusClass::AuthenticationFailed);
    assert_eq!(classify_http_status(403), HttpStatusClass::AuthenticationFailed);
    assert_eq!(classify_http_status(404), HttpStatusClass::NotFound);
    assert_eq!(classify_http_status(500), HttpStatusClass::Other);
    assert_eq!(classify_http_status(302), HttpStatusClass::Other);
}
