use tccutil_rs::catalog::{
    catalog_display, catalog_key, find_key, is_canonical_key, service_display_name, CATALOG_LEN,
};
use tccutil_rs::TccDb;

#[test]
fn known_service_keys_resolve_to_human_names() {
    assert_eq!(
        TccDb::service_display_name("kTCCServiceAccessibility"),
        "Accessibility"
    );
    assert_eq!(
        TccDb::service_display_name("kTCCServiceScreenCapture"),
        "Screen Recording"
    );
    assert_eq!(TccDb::service_display_name("kTCCServiceCamera"), "Camera");
    assert_eq!(
        TccDb::service_display_name("kTCCServiceMicrophone"),
        "Microphone"
    );
    assert_eq!(
        TccDb::service_display_name("kTCCServiceSystemPolicyAllFiles"),
        "Full Disk Access"
    );
    assert_eq!(TccDb::service_display_name("kTCCServicePhotos"), "Photos");
}

#[test]
fn unknown_service_key_with_prefix_strips_prefix() {
    assert_eq!(
        TccDb::service_display_name("kTCCServiceSomethingNew"),
        "SomethingNew"
    );
}

#[test]
fn unknown_service_key_without_prefix_returns_raw() {
    assert_eq!(
        TccDb::service_display_name("com.example.custom"),
        "com.example.custom"
    );
    assert_eq!(TccDb::service_display_name("FooBar"), "FooBar");
}

#[test]
fn service_map_contains_expected_entries() {
    assert!(is_canonical_key("kTCCServiceAccessibility"));
    assert!(is_canonical_key("kTCCServiceCamera"));
    assert!(is_canonical_key("kTCCServiceMicrophone"));
    assert!(is_canonical_key("kTCCServiceScreenCapture"));
    assert!(CATALOG_LEN > 20);
}

#[test]
fn every_canonical_key_has_a_display_name() {
    for i in 0..CATALOG_LEN {
        let key = catalog_key(i);
        let shown = service_display_name(key);
        assert!(!shown.is_empty(), "no display name for {}", key);
        assert_eq!(shown, catalog_display(i));
        assert_eq!(shown, service_display_name(key));
        assert!(key.starts_with("kTCCService"));
    }
}

#[test]
fn catalog_keys_are_distinct() {
    for i in 0..CATALOG_LEN {
        assert_eq!(find_key(catalog_key(i)), Some(i));
    }
    assert_eq!(CATALOG_LEN, 31);
}

#[test]
fn find_key_rejects_what_is_no_key() {
    assert_eq!(find_key("Camera"), None);
    assert_eq!(find_key(""), None);
    assert_eq!(find_key("kTCCService"), None);
    assert_eq!(find_key("kTCCServicecamera"), None);
    assert!(!is_canonical_key("kTCCServiceCamera "));
}

#[test]
fn bare_prefix_is_shown_as_empty() {
    assert_eq!(service_display_name("kTCCService"), "");
    assert_eq!(service_display_name(""), "");
    assert_eq!(service_display_name("xkTCCServiceCamera"), "xkTCCServiceCamera");
}

#[test]
fn catalog_ends_as_it_should() {
    assert_eq!(catalog_key(0), "kTCCServiceAccessibility");
    assert_eq!(catalog_display(0), "Accessibility");
    assert_eq!(catalog_key(30), "kTCCServiceLiverpool");
    assert_eq!(catalog_display(30), "User Data (Liverpool)");
    assert_eq!(catalog_display(3), "Administer Computer (SysAdmin)");
}
