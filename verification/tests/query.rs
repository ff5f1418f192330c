use tccutil_rs::query::{entry_precedes, filter_entries, passes_filters, sort_entries};
use tccutil_rs::{TccDb, TccEntry};

fn make_entry(service_raw: &str, client: &str, auth_value: i32) -> TccEntry {
    TccEntry {
        service_raw: service_raw.to_string(),
        service_display: TccDb::service_display_name(service_raw),
        client: client.to_string(),
        auth_value,
        last_modified: "2024-01-01 00:00:00".to_string(),
        is_system: false,
    }
}

fn keys(entries: &[TccEntry]) -> Vec<(String, String, i32)> {
    entries
        .iter()
        .map(|e| (e.service_display.clone(), e.client.clone(), e.auth_value))
        .collect()
}

#[test]
fn client_filter_partial_match() {
    let entries = vec![
        make_entry("kTCCServiceCamera", "com.apple.Terminal", 2),
        make_entry("kTCCServiceMicrophone", "com.google.Chrome", 0),
        make_entry("kTCCServiceCamera", "com.apple.Safari", 2),
    ];

    let filtered = filter_entries(entries, Some("apple"), None);
    assert_eq!(filtered.len(), 2);
    assert!(filtered.iter().all(|e| e.client.contains("apple")));
}

#[test]
fn service_filter_partial_match_display_name() {
    let entries = vec![
        make_entry("kTCCServiceCamera", "com.app.a", 2),
        make_entry("kTCCServiceMicrophone", "com.app.b", 0),
        make_entry("kTCCServiceScreenCapture", "com.app.c", 2),
    ];

    let filtered = filter_entries(entries, None, Some("Camer"));
    assert_eq!(filtered.len(), 1);
    assert_eq!(filtered[0].service_raw, "kTCCServiceCamera");
}

#[test]
fn service_filter_partial_match_raw_key() {
    let entries = vec![
        make_entry("kTCCServiceCamera", "com.app.a", 2),
        make_entry("kTCCServiceMicrophone", "com.app.b", 0),
    ];

    let filtered = filter_entries(entries, None, Some("kTCCServiceMicro"));
    assert_eq!(filtered.len(), 1);
    assert_eq!(filtered[0].service_raw, "kTCCServiceMicrophone");
}

#[test]
fn filter_case_insensitive() {
    let entries = vec![make_entry("kTCCServiceCamera", "com.Apple.Terminal", 2)];

    let filtered = filter_entries(entries, Some("APPLE"), None);
    assert_eq!(filtered.len(), 1);
}

#[test]
fn filter_no_match_returns_empty() {
    let entries = vec![make_entry("kTCCServiceCamera", "com.apple.Terminal", 2)];

    let filtered = filter_entries(entries, Some("nonexistent"), None);
    assert!(filtered.is_empty());
}

#[test]
fn client_filter_keeps_exactly_the_two_apple_entries() {
    let entries = vec![
        make_entry("kTCCServiceCamera", "com.APPLE.Terminal", 2),
        make_entry("kTCCServiceMicrophone", "com.google.Chrome", 0),
        make_entry("kTCCServiceCamera", "com.Apple.Safari", 3),
    ];
    let filtered = filter_entries(entries, Some("apple"), None);
    assert_eq!(
        keys(&filtered),
        vec![
            ("Camera".to_string(), "com.APPLE.Terminal".to_string(), 2),
            ("Camera".to_string(), "com.Apple.Safari".to_string(), 3),
        ]
    );
}

#[test]
fn filters_absent_keep_everything_in_order() {
    let entries = vec![
        make_entry("kTCCServiceMicrophone", "b", 0),
        make_entry("kTCCServiceCamera", "a", 2),
    ];
    let filtered = filter_entries(entries, None, None);
    assert_eq!(
        keys(&filtered),
        vec![
            ("Microphone".to_string(), "b".to_string(), 0),
            ("Camera".to_string(), "a".to_string(), 2),
        ]
    );
    assert!(filter_entries(Vec::new(), Some("x"), Some("y")).is_empty());
}

#[test]
fn both_filters_must_pass() {
    let entries = vec![
        make_entry("kTCCServiceCamera", "com.apple.Terminal", 2),
        make_entry("kTCCServiceMicrophone", "com.apple.Terminal", 0),
        make_entry("kTCCServiceCamera", "com.google.Chrome", 2),
    ];
    let filtered = filter_entries(entries, Some("apple"), Some("camera"));
    assert_eq!(
        keys(&filtered),
        vec![("Camera".to_string(), "com.apple.Terminal".to_string(), 2)]
    );
}

#[test]
fn service_filter_sees_the_key_of_an_unknown_service() {
    let entries = vec![make_entry("kTCCServiceBrandNew", "a", 2), make_entry("Other", "a", 2)];
    let filtered = filter_entries(entries, None, Some("ktccservice"));
    assert_eq!(filtered.len(), 1);
    assert_eq!(filtered[0].service_display, "BrandNew");
}

#[test]
fn passes_filters_decides_on_lower_case_texts() {
    assert!(passes_filters("com.apple.safari", "camera", "ktccservicecamera", None, None));
    assert!(passes_filters("com.apple.safari", "camera", "ktccservicecamera", Some("apple"), None));
    assert!(!passes_filters("com.apple.safari", "camera", "ktccservicecamera", Some("Apple"), None));
    assert!(passes_filters("c", "camera", "ktccservicecamera", None, Some("service")));
    assert!(passes_filters("c", "camera", "ktccservicecamera", None, Some("amer")));
    assert!(!passes_filters("c", "camera", "ktccservicecamera", None, Some("micro")));
    assert!(!passes_filters("c", "camera", "ktccservicecamera", Some("x"), Some("camera")));
    assert!(passes_filters("", "", "", Some(""), Some("")));
}

#[test]
fn sort_orders_by_display_name_then_client() {
    let entries = vec![
        make_entry("kTCCServiceMicrophone", "com.b", 0),
        make_entry("kTCCServiceCamera", "com.z", 2),
        make_entry("kTCCServiceAccessibility", "/usr/bin/x", 2),
        make_entry("kTCCServiceCamera", "com.a", 3),
        make_entry("kTCCServiceCamera", "Com.a", 0),
    ];
    let sorted = sort_entries(entries);
    assert_eq!(
        keys(&sorted),
        vec![
            ("Accessibility".to_string(), "/usr/bin/x".to_string(), 2),
            ("Camera".to_string(), "Com.a".to_string(), 0),
            ("Camera".to_string(), "com.a".to_string(), 3),
            ("Camera".to_string(), "com.z".to_string(), 2),
            ("Microphone".to_string(), "com.b".to_string(), 0),
        ]
    );
}

#[test]
fn sort_keeps_entries_of_equal_rank_in_their_order() {
    let mut first = make_entry("kTCCServiceCamera", "com.a", 0);
    first.is_system = false;
    let mut second = make_entry("kTCCServiceCamera", "com.a", 2);
    second.is_system = true;
    let mut third = make_entry("kTCCServiceCamera", "com.a", 3);
    third.last_modified = "N/A".to_string();
    let sorted = sort_entries(vec![
        make_entry("kTCCServiceMicrophone", "x", 9),
        first,
        second,
        make_entry("kTCCServiceAccessibility", "x", 9),
        third,
    ]);
    let values: Vec<i32> = sorted.iter().map(|e| e.auth_value).collect();
    assert_eq!(values, vec![9, 0, 2, 3, 9]);
    assert!(sorted[2].is_system);
    assert_eq!(sorted[3].last_modified, "N/A");
}

#[test]
fn sort_of_nothing_and_of_one() {
    assert!(sort_entries(Vec::new()).is_empty());
    let one = sort_entries(vec![make_entry("kTCCServiceCamera", "a", 2)]);
    assert_eq!(one.len(), 1);
    assert_eq!(one[0].client, "a");
}

#[test]
fn sort_goes_by_the_display_name_not_the_key() {
    // "Input Monitoring" (ListenEvent) comes before "Post Events" (PostEvent)
    // and after "Full Disk Access" (SystemPolicyAllFiles).
    let sorted = sort_entries(vec![
        make_entry("kTCCServicePostEvent", "a", 2),
        make_entry("kTCCServiceSystemPolicyAllFiles", "a", 2),
        make_entry("kTCCServiceListenEvent", "a", 2),
    ]);
    let names: Vec<&str> = sorted.iter().map(|e| e.service_display.as_str()).collect();
    assert_eq!(names, vec!["Full Disk Access", "Input Monitoring", "Post Events"]);
}

#[test]
fn entry_precedes_is_strict() {
    let a = make_entry("kTCCServiceCamera", "a", 2);
    let b = make_entry("kTCCServiceCamera", "b", 2);
    let m = make_entry("kTCCServiceMicrophone", "0", 2);
    assert!(entry_precedes(&a, &b));
    assert!(!entry_precedes(&b, &a));
    assert!(!entry_precedes(&a, &a));
    assert!(entry_precedes(&b, &m));
    assert!(!entry_precedes(&m, &a));
    let short = make_entry("kTCCServiceCamera", "", 2);
    assert!(entry_precedes(&short, &a));
    let wide = make_entry("kTCCServiceCamera", "é", 2);
    assert!(entry_precedes(&b, &wide));
}
