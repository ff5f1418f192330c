use tccutil_rs::diagnose::{machine_lines, push_store_lines, StoreProbe};

#[test]
fn machine_lines_open_the_report() {
    assert_eq!(
        machine_lines("15.0", "enabled"),
        vec!["macOS version: 15.0".to_string(), "SIP status: enabled".to_string(), String::new()]
    );
}

#[test]
fn store_lines_for_a_store_that_is_missing() {
    let mut lines = vec!["before".to_string()];
    let probe = StoreProbe { exists: false, readable: true, writable: true, definition: None };
    push_store_lines(&mut lines, "User DB", "/u/TCC.db", &probe);
    assert_eq!(
        lines,
        vec![
            "before".to_string(),
            "User DB: /u/TCC.db".to_string(),
            "  Not found".to_string(),
            String::new(),
        ]
    );
}

#[test]
fn store_lines_with_a_known_and_an_unknown_fingerprint() {
    let mut lines = Vec::new();
    let probe = StoreProbe {
        exists: true,
        readable: true,
        writable: false,
        definition: Some("abc".to_string()),
    };
    push_store_lines(&mut lines, "System DB", "/s/TCC.db", &probe);
    assert_eq!(
        lines,
        vec![
            "System DB: /s/TCC.db".to_string(),
            "  Readable: yes".to_string(),
            "  Writable: no".to_string(),
            "  Schema digest: a9993e3647 (UNKNOWN)".to_string(),
            String::new(),
        ]
    );
}

#[test]
fn store_lines_without_definition_or_unreadable() {
    let mut lines = Vec::new();
    let unreadable = StoreProbe {
        exists: true,
        readable: false,
        writable: true,
        definition: Some("abc".to_string()),
    };
    push_store_lines(&mut lines, "User DB", "p", &unreadable);
    let bare = StoreProbe { exists: true, readable: true, writable: true, definition: None };
    push_store_lines(&mut lines, "System DB", "q", &bare);
    assert_eq!(
        lines,
        vec![
            "User DB: p".to_string(),
            "  Readable: no".to_string(),
            "  Writable: yes".to_string(),
            String::new(),
            "System DB: q".to_string(),
            "  Readable: yes".to_string(),
            "  Writable: yes".to_string(),
            String::new(),
        ]
    );
}
