use tccutil_rs::json::{
    json_error, json_escape, json_info_data, json_list_data, json_message_data, json_string,
    json_success,
};
use tccutil_rs::{TccEntry, TccError};

#[test]
fn json_escape_short_escapes() {
    assert_eq!(json_escape("plain"), "plain");
    assert_eq!(json_escape(""), "");
    assert_eq!(json_escape("a\\b"), "a\\\\b");
    assert_eq!(json_escape("say \"hi\""), "say \\\"hi\\\"");
    assert_eq!(json_escape("l1\nl2\r\tx"), "l1\\nl2\\r\\tx");
    assert_eq!(json_escape("\u{08}\u{0C}"), "\\b\\f");
}

#[test]
fn json_escape_control_characters_by_code() {
    assert_eq!(json_escape("\u{00}"), "\\u0000");
    assert_eq!(json_escape("\u{01}"), "\\u0001");
    assert_eq!(json_escape("\u{0b}"), "\\u000b");
    assert_eq!(json_escape("\u{1f}"), "\\u001f");
    assert_eq!(json_escape("\u{7f}"), "\\u007f");
    assert_eq!(json_escape("\u{80}"), "\\u0080");
    assert_eq!(json_escape("\u{9f}"), "\\u009f");
    assert_eq!(json_escape("\u{a0}"), "\u{a0}");
    assert_eq!(json_escape(" ~"), " ~");
}

#[test]
fn json_escape_keeps_other_characters() {
    assert_eq!(json_escape("caf\u{e9} \u{2014} \u{1F600}/'"), "caf\u{e9} \u{2014} \u{1F600}/'");
}

#[test]
fn json_string_quotes() {
    assert_eq!(json_string("a\"b"), "\"a\\\"b\"");
    assert_eq!(json_string(""), "\"\"");
}

#[test]
fn json_envelopes() {
    assert_eq!(
        json_success("list", "{\"count\":0,\"entries\":[]}"),
        "{\"ok\":true,\"command\":\"list\",\"data\":{\"count\":0,\"entries\":[]},\"error\":null}"
    );
    assert_eq!(
        json_error("grant", "NotFound", "no \"row\""),
        "{\"ok\":false,\"command\":\"grant\",\"data\":null,\"error\":{\"kind\":\"NotFound\",\
         \"message\":\"no \\\"row\\\"\"}}"
    );
}

#[test]
fn json_message_and_info_data() {
    assert_eq!(json_message_data("done\n"), "{\"message\":\"done\\n\"}");
    let none: Vec<String> = Vec::new();
    assert_eq!(json_info_data(&none), "{\"lines\":[]}");
    assert_eq!(json_info_data(&vec!["a".to_string()]), "{\"lines\":[\"a\"]}");
    assert_eq!(
        json_info_data(&vec!["a".to_string(), String::new(), "b\"".to_string()]),
        "{\"lines\":[\"a\",\"\",\"b\\\"\"]}"
    );
}

#[test]
fn json_list_data_of_entries() {
    let none: Vec<TccEntry> = Vec::new();
    assert_eq!(json_list_data(&none, false), "{\"count\":0,\"entries\":[]}");
    let entries = vec![
        TccEntry {
            service_raw: "kTCCServiceCamera".to_string(),
            service_display: "Camera".to_string(),
            client: "/Applications/Safari.app/Contents/MacOS/Safari".to_string(),
            auth_value: 2,
            last_modified: "2024-01-01 00:00:00".to_string(),
            is_system: false,
        },
        TccEntry {
            service_raw: "kTCCServiceAccessibility".to_string(),
            service_display: "Accessibility".to_string(),
            client: "com.example.app".to_string(),
            auth_value: -7,
            last_modified: "N/A".to_string(),
            is_system: true,
        },
    ];
    assert_eq!(
        json_list_data(&entries, false),
        "{\"count\":2,\"entries\":[{\"service\":\"Camera\",\"service_raw\":\"kTCCServiceCamera\",\
         \"client\":\"/Applications/Safari.app/Contents/MacOS/Safari\",\"status\":\"granted\",\
         \"auth_value\":2,\"source\":\"user\",\"last_modified\":\"2024-01-01 00:00:00\"},\
         {\"service\":\"Accessibility\",\"service_raw\":\"kTCCServiceAccessibility\",\
         \"client\":\"com.example.app\",\"status\":\"unknown(-7)\",\"auth_value\":-7,\
         \"source\":\"system\",\"last_modified\":\"N/A\"}]}"
    );
    let compact = json_list_data(&entries, true);
    assert!(compact.contains("\"client\":\"Safari\""));
    assert!(compact.contains("\"client\":\"com.example.app\""));
}

#[test]
fn error_messages_and_kinds() {
    let cases: Vec<(TccError, &str, &str)> = vec![
        (
            TccError::DbOpen { path: "/p/TCC.db".to_string(), source: "denied".to_string() },
            "DbOpen",
            "Failed to open /p/TCC.db: denied",
        ),
        (
            TccError::NotFound { service: "Camera".to_string(), client: "c".to_string() },
            "NotFound",
            "No entry found for service 'Camera' and client 'c'",
        ),
        (TccError::NeedsRoot { message: "use sudo".to_string() }, "NeedsRoot", "use sudo"),
        (
            TccError::UnknownService("Nope".to_string()),
            "UnknownService",
            "Unknown service 'Nope'. Run `tcc services` to see available services.",
        ),
        (
            TccError::AmbiguousService {
                input: "Photo".to_string(),
                matches: vec!["Photos".to_string(), "Photos (Add Only)".to_string()],
            },
            "AmbiguousService",
            "Ambiguous service 'Photo'. Matches: Photos, Photos (Add Only)",
        ),
        (TccError::QueryFailed("q".to_string()), "QueryFailed", "q"),
        (TccError::SchemaInvalid("s".to_string()), "SchemaInvalid", "s"),
        (TccError::HomeDirNotFound, "HomeDirNotFound", "Cannot determine home directory"),
        (TccError::WriteFailed("w".to_string()), "WriteFailed", "w"),
    ];
    for (error, kind, message) in cases {
        assert_eq!(error.kind(), kind);
        assert_eq!(error.message(), message);
    }
    let empty = TccError::AmbiguousService { input: String::new(), matches: Vec::new() };
    assert_eq!(empty.message(), "Ambiguous service ''. Matches: ");
}
