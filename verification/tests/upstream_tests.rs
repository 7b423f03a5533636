use campsite_tracker::upstream::{
    build_search_params, convert_response, parse_availability_data, CampsiteAvailabilityData,
    RecGovInternalAvailabilityResponse,
};
use campsite_tracker::Date;

fn d(year: u32, month: u32, day: u32) -> Date {
    Date { year, month, day }
}

fn entries(pairs: &[(&str, &str)]) -> Vec<(String, String)> {
    pairs.iter().map(|(k, v)| (k.to_string(), v.to_string())).collect()
}

#[test]
fn campsite_entries_parse_decode_and_window() {
    let avail = entries(&[
        ("2025-06-10T00:00:00Z", "Reserved"),
        ("2025-06-11T00:00:00Z", "Available"),
        ("2025-06-12T00:00:00Z", "$25.00"),
        ("2025-06-20T00:00:00Z", "Available"),  // outside the window
        ("garbled", "Available"),               // unreadable date
    ]);
    let sites = parse_availability_data(
        &"1234".to_string(),
        &Some("Shady Spot".to_string()),
        &avail,
        &d(2025, 6, 10),
        &d(2025, 6, 12),
    );
    assert_eq!(sites.len(), 3);
    assert!(sites.iter().all(|s| s.site_id == "1234" && s.site_name == "Shady Spot"));
    assert_eq!(
        sites.iter().map(|s| (s.date.day, s.available, s.price_cents)).collect::<Vec<_>>(),
        vec![(10, false, None), (11, true, None), (12, true, Some(2500))]
    );

    // without a display name the campsite id stands in
    let unnamed = parse_availability_data(
        &"1234".to_string(),
        &None,
        &avail,
        &d(2025, 6, 10),
        &d(2025, 6, 12),
    );
    assert!(unnamed.iter().all(|s| s.site_name == "1234"));
}

#[test]
fn payload_conversion_counts_campsites_and_keeps_order() {
    let response = RecGovInternalAvailabilityResponse {
        campsites: vec![
            (
                "A".to_string(),
                CampsiteAvailabilityData {
                    availabilities: entries(&[("2025-06-11T00:00:00Z", "Available")]),
                    campsite_id: Some("A".to_string()),
                    campsite_type: None,
                    campsite_loop: None,
                },
            ),
            (
                "B".to_string(),
                CampsiteAvailabilityData {
                    availabilities: entries(&[
                        ("2025-06-10T00:00:00Z", "Not Reservable"),
                        ("2025-06-11T00:00:00Z", "Walk-up"),
                    ]),
                    campsite_id: Some("B".to_string()),
                    campsite_type: None,
                    campsite_loop: None,
                },
            ),
        ],
    };
    let converted = convert_response(
        &"G1".to_string(),
        &response,
        &d(2025, 6, 10),
        &d(2025, 6, 12),
        9_000,
    );
    assert_eq!(converted.campground_id, "G1");
    assert_eq!(converted.total_sites, 2);
    assert_eq!(converted.checked_at, 9_000);
    assert_eq!(
        converted
            .available_sites
            .iter()
            .map(|s| (s.site_id.as_str(), s.date.day, s.available))
            .collect::<Vec<_>>(),
        vec![("A", 11, true), ("B", 10, false), ("B", 11, false)]
    );
}

#[test]
fn search_parameters_carry_the_optional_filters_in_order() {
    let params = build_search_params(
        &"yosemite".to_string(),
        &Some("CA".to_string()),
        &None,
        &Some("SECRET-REDACTED".to_string()),
    );
    let pairs: Vec<(&str, &str)> =
        params.iter().map(|(k, v)| (k.as_str(), v.as_str())).collect();
    assert_eq!(
        pairs,
        vec![
            ("limit", "50"),
            ("offset", "0"),
            ("query", "yosemite"),
            ("state", "CA"),
            ("apikey", "SECRET-REDACTED"),
        ]
    );
}
