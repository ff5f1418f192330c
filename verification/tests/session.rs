use rusqlite::Connection;
use tccutil_rs::db::label_of;
use tccutil_rs::gate::Store;
use tccutil_rs::reader::read_db;
use tccutil_rs::{DbTarget, TccDb, TccError};

const TABLE: &str = "CREATE TABLE access (
                service TEXT NOT NULL,
                client TEXT NOT NULL,
                client_type INTEGER NOT NULL,
                auth_value INTEGER NOT NULL DEFAULT 0,
                auth_reason INTEGER NOT NULL DEFAULT 0,
                auth_version INTEGER NOT NULL DEFAULT 1,
                flags INTEGER NOT NULL DEFAULT 0,
                last_modified INTEGER DEFAULT 0,
                PRIMARY KEY (service, client, client_type)
            );";

fn text(path: &std::path::Path) -> String {
    path.to_str().expect("temp path is not UTF-8").to_string()
}

fn make_store(path: &std::path::Path, sql: &str) {
    let conn = Connection::open(path).expect("failed to create temp db");
    conn.execute_batch(sql).expect("failed to create table");
}

fn make_temp_tcc_db() -> (tempfile::TempDir, TccDb) {
    let dir = tempfile::tempdir().expect("failed to create temp dir");
    let db_path = dir.path().join("TCC.db");
    make_store(&db_path, TABLE);
    let db = TccDb::with_paths(
        text(&db_path),
        text(&dir.path().join("system_TCC.db")),
        DbTarget::User,
    );
    (dir, db)
}

fn make_two_stores(elevated: bool) -> (tempfile::TempDir, TccDb) {
    let dir = tempfile::tempdir().expect("failed to create temp dir");
    let user = dir.path().join("TCC.db");
    let system = dir.path().join("system_TCC.db");
    make_store(&user, TABLE);
    make_store(&system, TABLE);
    let db = TccDb::with_paths(text(&user), text(&system), DbTarget::Default)
        .with_privilege(elevated);
    (dir, db)
}

fn insert_row(path: &str, service: &str, client: &str, auth_value: i32, modified: i64) {
    let conn = Connection::open(path).unwrap();
    conn.execute(
        "INSERT INTO access (service, client, client_type, auth_value, last_modified) \
         VALUES (?1, ?2, 1, ?3, ?4)",
        (service, client, auth_value, modified),
    )
    .unwrap();
}

#[test]
fn grant_inserts_entry() {
    let (_dir, mut db) = make_temp_tcc_db();
    let result = db.grant("Camera", "com.example.app");
    assert!(result.is_ok(), "grant failed: {:?}", result.err());
    assert!(result.unwrap().contains("Granted"));

    let entries = db.list(None, None).unwrap();
    assert_eq!(entries.len(), 1);
    assert_eq!(entries[0].service_raw, "kTCCServiceCamera");
    assert_eq!(entries[0].client, "com.example.app");
    assert_eq!(entries[0].auth_value, 2);
}

#[test]
fn grant_sets_client_type_for_path() {
    let (_dir, mut db) = make_temp_tcc_db();
    db.grant("Camera", "/usr/bin/test").unwrap();

    let conn = Connection::open(db.user_db_path()).unwrap();
    let client_type: i32 = conn
        .query_row(
            "SELECT client_type FROM access WHERE client = '/usr/bin/test'",
            [],
            |row| row.get(0),
        )
        .unwrap();
    assert_eq!(client_type, 0, "Path client should have client_type 0");
}

#[test]
fn grant_sets_client_type_for_bundle_id() {
    let (_dir, mut db) = make_temp_tcc_db();
    db.grant("Camera", "com.example.app").unwrap();

    let conn = Connection::open(db.user_db_path()).unwrap();
    let client_type: i32 = conn
        .query_row(
            "SELECT client_type FROM access WHERE client = 'com.example.app'",
            [],
            |row| row.get(0),
        )
        .unwrap();
    assert_eq!(client_type, 1, "Bundle ID should have client_type 1");
}

#[test]
fn revoke_removes_entry() {
    let (_dir, mut db) = make_temp_tcc_db();
    db.grant("Camera", "com.example.app").unwrap();

    let result = db.revoke("Camera", "com.example.app");
    assert!(result.is_ok());

    let entries = db.list(None, None).unwrap();
    assert!(entries.is_empty());
}

#[test]
fn revoke_nonexistent_returns_not_found() {
    let (_dir, mut db) = make_temp_tcc_db();
    let result = db.revoke("Camera", "com.nonexistent.app");
    assert!(result.is_err());
    assert!(matches!(result.unwrap_err(), TccError::NotFound { .. }));
}

#[test]
fn enable_sets_auth_value_to_granted() {
    let (_dir, mut db) = make_temp_tcc_db();
    db.grant("Camera", "com.example.app").unwrap();
    db.disable("Camera", "com.example.app").unwrap();

    let entries = db.list(None, None).unwrap();
    assert_eq!(entries[0].auth_value, 0);

    db.enable("Camera", "com.example.app").unwrap();
    let entries = db.list(None, None).unwrap();
    assert_eq!(entries[0].auth_value, 2);
}

#[test]
fn disable_sets_auth_value_to_denied() {
    let (_dir, mut db) = make_temp_tcc_db();
    db.grant("Camera", "com.example.app").unwrap();

    db.disable("Camera", "com.example.app").unwrap();
    let entries = db.list(None, None).unwrap();
    assert_eq!(entries[0].auth_value, 0);
}

#[test]
fn enable_nonexistent_returns_not_found() {
    let (_dir, mut db) = make_temp_tcc_db();
    let result = db.enable("Camera", "com.nonexistent.app");
    assert!(result.is_err());
    assert!(matches!(result.unwrap_err(), TccError::NotFound { .. }));
}

#[test]
fn reset_specific_client() {
    let (_dir, mut db) = make_temp_tcc_db();
    db.grant("Camera", "com.example.a").unwrap();
    db.grant("Camera", "com.example.b").unwrap();

    db.reset("Camera", Some("com.example.a")).unwrap();
    let entries = db.list(None, None).unwrap();
    assert_eq!(entries.len(), 1);
    assert_eq!(entries[0].client, "com.example.b");
}

#[test]
fn reset_all_entries_for_service() {
    let (_dir, mut db) = make_temp_tcc_db();
    db.grant("Camera", "com.example.a").unwrap();
    db.grant("Camera", "com.example.b").unwrap();
    db.grant("Microphone", "com.example.a").unwrap();

    let result = db.reset("Camera", None).unwrap();
    assert!(result.contains("2 deleted"));

    let entries = db.list(None, None).unwrap();
    assert_eq!(entries.len(), 1);
    assert_eq!(entries[0].service_raw, "kTCCServiceMicrophone");
}

#[test]
fn with_paths_constructor() {
    let db = TccDb::with_paths(
        "/tmp/user.db".to_string(),
        "/tmp/system.db".to_string(),
        DbTarget::User,
    );
    assert_eq!(db.user_db_path(), "/tmp/user.db");
    assert_eq!(db.system_db_path(), "/tmp/system.db");
    assert!(db.target() == DbTarget::User);
    assert!(!db.is_elevated());
    assert_eq!(db.time(), 0);
    assert!(db.with_privilege(true).is_elevated());
}

#[test]
fn grant_then_revoke_round_trip() {
    let (_dir, mut db) = make_temp_tcc_db();
    assert_eq!(
        db.grant("Microphone", "com.example.app").unwrap(),
        "Granted Microphone access for 'com.example.app'"
    );
    let entries = db.list(None, None).unwrap();
    assert_eq!(entries.len(), 1);
    assert_eq!(entries[0].service_raw, "kTCCServiceMicrophone");
    assert_eq!(entries[0].service_display, "Microphone");
    assert_eq!(entries[0].client, "com.example.app");
    assert_eq!(entries[0].auth_value, 2);
    assert!(!entries[0].is_system);
    assert_ne!(entries[0].last_modified, "N/A");

    assert_eq!(
        db.revoke("Microphone", "com.example.app").unwrap(),
        "Revoked Microphone access for 'com.example.app'"
    );
    assert!(db.list(None, None).unwrap().is_empty());
}

#[test]
fn grant_twice_leaves_one_entry() {
    let (_dir, mut db) = make_temp_tcc_db();
    db.grant("Camera", "com.example.app").unwrap();
    db.grant("Camera", "com.example.app").unwrap();
    db.grant("kTCCServiceCamera", "com.example.app").unwrap();
    let entries = db.list(None, None).unwrap();
    assert_eq!(entries.len(), 1);
    assert_eq!(entries[0].auth_value, 2);
}

#[test]
fn grant_after_disable_grants_again() {
    let (_dir, mut db) = make_temp_tcc_db();
    db.grant("Camera", "com.example.app").unwrap();
    assert_eq!(
        db.disable("Camera", "com.example.app").unwrap(),
        "Disabled Camera access for 'com.example.app'"
    );
    db.grant("Camera", "com.example.app").unwrap();
    let entries = db.list(None, None).unwrap();
    assert_eq!(entries.len(), 1);
    assert_eq!(entries[0].auth_value, 2);
}

#[test]
fn disable_then_enable_restores_granted() {
    let (_dir, mut db) = make_temp_tcc_db();
    db.grant("Camera", "com.example.app").unwrap();
    db.disable("Camera", "com.example.app").unwrap();
    assert_eq!(
        db.enable("Camera", "com.example.app").unwrap(),
        "Enabled Camera access for 'com.example.app'"
    );
    assert_eq!(db.list(None, None).unwrap()[0].auth_value, 2);
}

#[test]
fn not_found_messages_name_service_and_client() {
    let (_dir, mut db) = make_temp_tcc_db();
    match db.enable("Camera", "com.none") {
        Err(TccError::NotFound { service, client }) => {
            assert_eq!(service, "Camera. Use `tcc grant` to insert a new entry");
            assert_eq!(client, "com.none");
        }
        other => panic!("expected NotFound, got {:?}", other),
    }
    match db.disable("camera", "com.none") {
        Err(TccError::NotFound { service, client }) => {
            assert_eq!(service, "Camera");
            assert_eq!(client, "com.none");
        }
        other => panic!("expected NotFound, got {:?}", other),
    }
    match db.reset("Camera", Some("com.none")) {
        Err(e) => assert_eq!(
            e.message(),
            "No entry found for service 'Camera' and client 'com.none'"
        ),
        other => panic!("expected NotFound, got {:?}", other),
    }
    assert!(db.list(None, None).unwrap().is_empty());
}

#[test]
fn reset_one_client_confirms() {
    let (_dir, mut db) = make_temp_tcc_db();
    db.grant("Camera", "com.example.a").unwrap();
    assert_eq!(
        db.reset("Camera", Some("com.example.a")).unwrap(),
        "Reset Camera entry for 'com.example.a'"
    );
}

#[test]
fn writes_fail_on_what_resolves_to_nothing() {
    let (_dir, mut db) = make_temp_tcc_db();
    assert!(matches!(
        db.grant("NonexistentServiceXYZ", "c"),
        Err(TccError::UnknownService(_))
    ));
    assert!(matches!(
        db.revoke("Photo", "c"),
        Err(TccError::AmbiguousService { .. })
    ));
    assert!(matches!(db.reset("Photo", None), Err(TccError::AmbiguousService { .. })));
    assert!(matches!(db.reset("Nope", Some("c")), Err(TccError::UnknownService(_))));
    assert!(db.take_warnings().is_empty());
}

#[test]
fn unknown_schema_gives_a_warning_and_lets_the_write_pass() {
    let (_dir, mut db) = make_temp_tcc_db();
    db.grant("Camera", "com.example.app").unwrap();
    let warnings = db.take_warnings();
    assert_eq!(warnings.len(), 1);
    assert!(
        warnings[0].starts_with("Warning: Unknown TCC database schema (digest: "),
        "got: {}",
        warnings[0]
    );
    assert!(warnings[0].ends_with("). Proceeding anyway \u{2014} results may vary."));
    let digest = &warnings[0]["Warning: Unknown TCC database schema (digest: ".len()..][..10];
    assert!(digest.chars().all(|c| c.is_ascii_hexdigit()));
    assert!(db.take_warnings().is_empty());
}

#[test]
fn system_services_need_elevation_in_combined_scope() {
    let (_dir, db) = make_two_stores(false);
    let mut db = db;
    match db.grant("Accessibility", "com.example.app") {
        Err(TccError::NeedsRoot { message }) => assert_eq!(
            message,
            "Service 'Accessibility' requires the system TCC database.\n\
             Run with sudo: sudo tcc grant Accessibility com.example.app"
        ),
        other => panic!("expected NeedsRoot, got {:?}", other),
    }
    match db.revoke("screen recording", "/bin/x") {
        Err(TccError::NeedsRoot { message }) => assert_eq!(
            message,
            "Service 'Screen Recording' requires the system TCC database.\n\
             Run with sudo: sudo tcc revoke screen recording /bin/x"
        ),
        other => panic!("expected NeedsRoot, got {:?}", other),
    }
    // other services go to the user store and need nothing
    db.grant("Camera", "com.example.app").unwrap();
    let entries = db.list(None, None).unwrap();
    assert_eq!(entries.len(), 1);
    assert!(!entries[0].is_system);
}

#[test]
fn elevated_writes_for_system_services_go_to_the_system_store() {
    let (_dir, mut db) = make_two_stores(true);
    db.grant("Accessibility", "/usr/bin/tool").unwrap();
    db.grant("Camera", "com.example.app").unwrap();
    let entries = db.list(None, None).unwrap();
    assert_eq!(entries.len(), 2);
    assert_eq!(entries[0].service_display, "Accessibility");
    assert!(entries[0].is_system);
    assert_eq!(entries[1].service_display, "Camera");
    assert!(!entries[1].is_system);
    assert_eq!(db.write_db_path("kTCCServiceAccessibility"), db.system_db_path());
    assert_eq!(db.write_db_path("kTCCServiceCamera"), db.user_db_path());
}

#[test]
fn user_scope_writes_everything_to_the_user_store() {
    let (_dir, mut db) = make_temp_tcc_db();
    db.grant("Accessibility", "/usr/bin/tool").unwrap();
    assert_eq!(db.write_db_path("kTCCServiceAccessibility"), db.user_db_path());
    let entries = db.list(None, None).unwrap();
    assert_eq!(entries.len(), 1);
    assert!(!entries[0].is_system);
    assert!(db.check_root_for_write("kTCCServiceAccessibility", "grant", "a", "b").is_ok());
}

#[test]
fn list_merges_filters_and_orders_both_stores() {
    let (_dir, mut db) = make_two_stores(true);
    let user = db.user_db_path().to_string();
    let system = db.system_db_path().to_string();
    insert_row(&user, "kTCCServiceMicrophone", "com.Apple.b", 0, 0);
    insert_row(&user, "kTCCServiceCamera", "com.google.Chrome", 2, 0);
    insert_row(&system, "kTCCServiceCamera", "com.apple.a", 3, 700_000_000);
    insert_row(&system, "kTCCServiceAccessibility", "com.APPLE.z", 2, 0);
    insert_row(&user, "kTCCServiceFutureThing", "com.apple.q", 7, 0);

    let all = db.list(None, None).unwrap();
    let shown: Vec<(&str, &str, bool)> = all
        .iter()
        .map(|e| (e.service_display.as_str(), e.client.as_str(), e.is_system))
        .collect();
    assert_eq!(
        shown,
        vec![
            ("Accessibility", "com.APPLE.z", true),
            ("Camera", "com.apple.a", true),
            ("Camera", "com.google.Chrome", false),
            ("FutureThing", "com.apple.q", false),
            ("Microphone", "com.Apple.b", false),
        ]
    );
    assert_eq!(all[0].last_modified, "N/A");
    assert!(all[1].last_modified.starts_with("2023-03-0"), "got {}", all[1].last_modified);
    assert_eq!(all[3].auth_value, 7);

    let apple = db.list(Some("apple"), None).unwrap();
    assert_eq!(apple.len(), 4);
    let camera = db.list(Some("APPLE"), Some("camera")).unwrap();
    assert_eq!(camera.len(), 1);
    assert_eq!(camera[0].client, "com.apple.a");
    assert!(db.take_warnings().is_empty());
}

#[test]
fn list_in_user_scope_ignores_the_system_store() {
    let (_dir, db) = make_two_stores(true);
    let user = db.user_db_path().to_string();
    let system = db.system_db_path().to_string();
    insert_row(&user, "kTCCServiceCamera", "a", 2, 0);
    insert_row(&system, "kTCCServiceCamera", "b", 2, 0);
    let mut db = TccDb::with_paths(user, system, DbTarget::User);
    let entries = db.list(None, None).unwrap();
    assert_eq!(entries.len(), 1);
    assert_eq!(entries[0].client, "a");
}

#[test]
fn list_of_missing_stores_is_empty() {
    let mut db = TccDb::with_paths(
        "/nonexistent/user.db".to_string(),
        "/nonexistent/system.db".to_string(),
        DbTarget::Default,
    );
    assert!(db.list(None, None).unwrap().is_empty());
    assert!(db.take_warnings().is_empty());
}

#[test]
fn list_goes_on_when_one_store_cannot_be_read() {
    let dir = tempfile::tempdir().unwrap();
    let user = dir.path().join("TCC.db");
    make_store(&user, TABLE);
    insert_row(&text(&user), "kTCCServiceCamera", "a", 2, 0);
    // the system "store" is a directory: it exists and cannot be opened
    let mut db = TccDb::with_paths(text(&user), text(dir.path()), DbTarget::Default);
    let entries = db.list(None, None).unwrap();
    assert_eq!(entries.len(), 1);
    let warnings = db.take_warnings();
    assert_eq!(warnings.len(), 1);
    assert!(
        warnings[0].starts_with(&format!("Warning: Failed to open {}: ", text(dir.path()))),
        "got: {}",
        warnings[0]
    );
}

#[test]
fn read_db_reports_a_store_without_table() {
    let dir = tempfile::tempdir().unwrap();
    let path = dir.path().join("empty.db");
    make_store(&path, "CREATE TABLE other (x INTEGER);");
    let mut warnings = Vec::new();
    match read_db(&text(&path), false, &mut warnings) {
        Err(TccError::QueryFailed(message)) => assert!(
            message.starts_with(&format!("Query failed on {}: ", text(&path))),
            "got: {}",
            message
        ),
        other => panic!("expected QueryFailed, got {:?}", other),
    }
    assert!(warnings.is_empty());
}

#[test]
fn read_db_reports_what_cannot_be_opened() {
    let dir = tempfile::tempdir().unwrap();
    let mut warnings = Vec::new();
    match read_db(&text(dir.path()), true, &mut warnings) {
        Err(TccError::DbOpen { path, source }) => {
            assert_eq!(path, text(dir.path()));
            assert!(!source.is_empty());
        }
        other => panic!("expected DbOpen, got {:?}", other),
    }
}

#[test]
fn read_db_falls_back_when_the_time_column_is_missing() {
    let dir = tempfile::tempdir().unwrap();
    let path = dir.path().join("old.db");
    make_store(
        &path,
        "CREATE TABLE access (service TEXT, client TEXT, auth_value INTEGER);
         INSERT INTO access VALUES ('kTCCServiceCamera', 'com.old', 2);",
    );
    let mut warnings = Vec::new();
    let entries = read_db(&text(&path), true, &mut warnings).unwrap();
    assert_eq!(entries.len(), 1);
    assert_eq!(entries[0].client, "com.old");
    assert_eq!(entries[0].last_modified, "N/A");
    assert!(entries[0].is_system);
    assert!(warnings.is_empty());
}

#[test]
fn read_db_skips_a_malformed_row_and_keeps_the_rest() {
    let dir = tempfile::tempdir().unwrap();
    let path = dir.path().join("TCC.db");
    make_store(
        &path,
        "CREATE TABLE access (service, client, auth_value, last_modified);
         INSERT INTO access VALUES ('kTCCServiceCamera', 'com.a', 2, 0);
         INSERT INTO access VALUES ('kTCCServiceCamera', 'com.bad', 'granted', 0);
         INSERT INTO access VALUES ('kTCCServiceMicrophone', 'com.c', 0, NULL);",
    );
    let mut warnings = vec!["earlier".to_string()];
    let entries = read_db(&text(&path), false, &mut warnings).unwrap();
    let clients: Vec<&str> = entries.iter().map(|e| e.client.as_str()).collect();
    assert_eq!(clients, vec!["com.a", "com.c"]);
    assert_eq!(entries[1].last_modified, "N/A");
    assert_eq!(warnings.len(), 2);
    assert_eq!(warnings[0], "earlier");
    assert!(
        warnings[1].starts_with(&format!(
            "Warning: skipping malformed row in {}: ",
            text(&path)
        )),
        "got: {}",
        warnings[1]
    );
}

#[test]
fn read_db_of_a_missing_store_is_empty() {
    let mut warnings = Vec::new();
    let entries = read_db("/nonexistent/dir/TCC.db", false, &mut warnings).unwrap();
    assert!(entries.is_empty());
    assert!(warnings.is_empty());
}

#[test]
fn write_to_a_store_without_table_is_refused() {
    let dir = tempfile::tempdir().unwrap();
    let path = dir.path().join("TCC.db");
    make_store(&path, "CREATE TABLE other (x INTEGER);");
    let mut db = TccDb::with_paths(text(&path), text(&path), DbTarget::User);
    match db.grant("Camera", "com.example.app") {
        Err(TccError::SchemaInvalid(message)) => assert_eq!(
            message,
            "Could not read TCC database schema. The access table may not exist."
        ),
        other => panic!("expected SchemaInvalid, got {:?}", other),
    }
    match db.reset("Camera", None) {
        Err(TccError::WriteFailed(message)) => assert_eq!(
            message,
            "Failed to reset: user DB: Could not read TCC database schema. \
             The access table may not exist."
        ),
        other => panic!("expected WriteFailed, got {:?}", other),
    }
}

#[test]
fn write_to_what_cannot_be_opened_fails_with_db_open() {
    let dir = tempfile::tempdir().unwrap();
    let mut db = TccDb::with_paths(text(dir.path()), text(dir.path()), DbTarget::User);
    match db.grant("Camera", "com.example.app") {
        Err(TccError::DbOpen { path, .. }) => assert_eq!(path, text(dir.path())),
        other => panic!("expected DbOpen, got {:?}", other),
    }
}

#[test]
fn write_that_the_store_refuses_fails_with_write_failed() {
    let dir = tempfile::tempdir().unwrap();
    let path = dir.path().join("TCC.db");
    make_store(&path, "CREATE TABLE access (service TEXT, client TEXT);");
    let mut db = TccDb::with_paths(text(&path), text(&path), DbTarget::User);
    match db.grant("Camera", "com.example.app") {
        Err(TccError::WriteFailed(message)) => {
            assert!(message.starts_with("Failed to grant: "), "got: {}", message);
            assert!(message.ends_with(". Note: SIP may prevent TCC.db writes on macOS 10.14+"));
        }
        other => panic!("expected WriteFailed, got {:?}", other),
    }
    match db.enable("Camera", "com.example.app") {
        Err(TccError::WriteFailed(message)) => {
            assert!(message.starts_with("Failed to enable: "), "got: {}", message);
            assert!(message.ends_with(". Note: SIP may prevent TCC.db writes."));
        }
        other => panic!("expected WriteFailed, got {:?}", other),
    }
    // a delete needs no more than the two columns
    assert!(matches!(db.revoke("Camera", "c"), Err(TccError::NotFound { .. })));
}

#[test]
fn reset_all_over_two_stores_counts_both() {
    let (_dir, mut db) = make_two_stores(true);
    let user = db.user_db_path().to_string();
    let system = db.system_db_path().to_string();
    insert_row(&user, "kTCCServiceCamera", "com.a", 2, 0);
    insert_row(&system, "kTCCServiceCamera", "com.b", 2, 0);
    insert_row(&system, "kTCCServiceMicrophone", "com.c", 2, 0);
    assert_eq!(
        db.reset("Camera", None).unwrap(),
        "Reset all Camera entries (2 deleted)"
    );
    let left = db.list(None, None).unwrap();
    assert_eq!(left.len(), 1);
    assert_eq!(left[0].service_raw, "kTCCServiceMicrophone");
}

#[test]
fn reset_all_reports_partial_success() {
    let dir = tempfile::tempdir().unwrap();
    let user = dir.path().join("TCC.db");
    let system = dir.path().join("system_TCC.db");
    make_store(&user, TABLE);
    make_store(&system, "CREATE TABLE other (x INTEGER);");
    insert_row(&text(&user), "kTCCServiceCamera", "com.a", 2, 0);
    let mut db =
        TccDb::with_paths(text(&user), text(&system), DbTarget::Default).with_privilege(true);
    assert_eq!(
        db.reset("Camera", None).unwrap(),
        "Reset all Camera entries (1 deleted)\nWarning: system DB: Could not read TCC \
         database schema. The access table may not exist."
    );
}

#[test]
fn reset_all_without_privilege_fails_when_nothing_was_deleted() {
    let (_dir, mut db) = make_two_stores(false);
    match db.reset("Camera", None) {
        Err(TccError::WriteFailed(message)) => assert_eq!(
            message,
            "Failed to reset: system DB: Resetting all 'Camera' entries requires the system \
             TCC database.\nRun with sudo: sudo tcc reset Camera"
        ),
        other => panic!("expected WriteFailed, got {:?}", other),
    }
}

#[test]
fn reset_all_without_privilege_keeps_what_the_user_store_gave() {
    let (_dir, mut db) = make_two_stores(false);
    let user = db.user_db_path().to_string();
    let system = db.system_db_path().to_string();
    insert_row(&user, "kTCCServiceCamera", "com.a", 2, 0);
    insert_row(&user, "kTCCServiceCamera", "com.b", 0, 0);
    insert_row(&system, "kTCCServiceCamera", "com.c", 2, 0);
    assert_eq!(
        db.reset("camera", None).unwrap(),
        "Reset all Camera entries (2 deleted)\nWarning: system DB: Resetting all 'Camera' \
         entries requires the system TCC database.\nRun with sudo: sudo tcc reset camera"
    );
    let left = db.list(None, None).unwrap();
    assert_eq!(left.len(), 1);
    assert!(left[0].is_system);
    assert_eq!(left[0].client, "com.c");
}

#[test]
fn reset_all_in_user_scope_needs_no_privilege() {
    let (_dir, db) = make_two_stores(false);
    let user = db.user_db_path().to_string();
    let system = db.system_db_path().to_string();
    insert_row(&user, "kTCCServiceAccessibility", "com.a", 2, 0);
    insert_row(&system, "kTCCServiceAccessibility", "com.b", 2, 0);
    let mut db = TccDb::with_paths(user, system, DbTarget::User);
    assert_eq!(
        db.reset("Accessibility", None).unwrap(),
        "Reset all Accessibility entries (1 deleted)"
    );
}

#[test]
fn writes_are_stamped_with_the_session_time() {
    let (_dir, db) = make_temp_tcc_db();
    assert_eq!(db.time(), 0);
    let mut db = db.with_time(1_700_000_000);
    assert_eq!(db.time(), 1_700_000_000);
    db.grant("Camera", "com.example.app").unwrap();
    let conn = Connection::open(db.user_db_path()).unwrap();
    let stamp = |conn: &Connection| -> i64 {
        conn.query_row("SELECT last_modified FROM access", [], |row| row.get(0))
            .unwrap()
    };
    assert_eq!(stamp(&conn), 1_700_000_000 - 978_307_200);
    let listed = db.list(None, None).unwrap();
    assert!(listed[0].last_modified.starts_with("2023-11-1"), "got {}", listed[0].last_modified);

    let mut db = db.with_time(1_700_000_100);
    db.disable("Camera", "com.example.app").unwrap();
    assert_eq!(stamp(&conn), 1_700_000_100 - 978_307_200);
    let mut db = db.with_time(978_307_200);
    db.enable("Camera", "com.example.app").unwrap();
    assert_eq!(stamp(&conn), 0);
    assert_eq!(db.list(None, None).unwrap()[0].last_modified, "N/A");
}

#[test]
fn reset_all_of_nothing_reports_zero() {
    let (_dir, mut db) = make_temp_tcc_db();
    assert_eq!(
        db.reset("Camera", None).unwrap(),
        "Reset all Camera entries (0 deleted)"
    );
    let mut nowhere = TccDb::with_paths(
        "/nonexistent/user.db".to_string(),
        "/nonexistent/system.db".to_string(),
        DbTarget::Default,
    );
    assert_eq!(
        nowhere.reset("Camera", None).unwrap(),
        "Reset all Camera entries (0 deleted)"
    );
}

#[test]
fn new_session_points_at_the_stores_of_this_machine() {
    match TccDb::new(DbTarget::Default, true) {
        Ok(db) => {
            assert_eq!(
                db.system_db_path(),
                "/Library/Application Support/com.apple.TCC/TCC.db"
            );
            assert!(db
                .user_db_path()
                .ends_with("/Library/Application Support/com.apple.TCC/TCC.db"));
            assert!(db.is_elevated());
            assert!(db.target() == DbTarget::Default);
        }
        Err(e) => assert!(matches!(e, TccError::HomeDirNotFound)),
    }
}

#[test]
fn at_home_joins_the_store_below_the_home_directory() {
    let db = TccDb::at_home(Some("/Users/me".to_string()), DbTarget::User, false).unwrap();
    assert_eq!(
        db.user_db_path(),
        "/Users/me/Library/Application Support/com.apple.TCC/TCC.db"
    );
    assert_eq!(
        db.system_db_path(),
        "/Library/Application Support/com.apple.TCC/TCC.db"
    );
    assert!(!db.is_elevated());
    let slash = TccDb::at_home(Some("/".to_string()), DbTarget::Default, true).unwrap();
    assert_eq!(
        slash.user_db_path(),
        "/Library/Application Support/com.apple.TCC/TCC.db"
    );
    let empty = TccDb::at_home(Some(String::new()), DbTarget::Default, true).unwrap();
    assert_eq!(
        empty.user_db_path(),
        "Library/Application Support/com.apple.TCC/TCC.db"
    );
    match TccDb::at_home(None, DbTarget::Default, true) {
        Err(e) => {
            assert!(matches!(e, TccError::HomeDirNotFound));
            assert_eq!(e.message(), "Cannot determine home directory");
        }
        Ok(_) => panic!("expected HomeDirNotFound"),
    }
}

#[test]
fn info_describes_both_stores() {
    let dir = tempfile::tempdir().unwrap();
    let user = dir.path().join("TCC.db");
    make_store(&user, TABLE);
    let missing = dir.path().join("missing.db");
    let db = TccDb::with_paths(text(&user), text(&missing), DbTarget::Default);
    let lines = db.info("14.4.1", "System Integrity Protection status: enabled.");
    assert_eq!(lines.len(), 11);
    assert_eq!(lines[0], "macOS version: 14.4.1");
    assert_eq!(
        lines[1],
        "SIP status: System Integrity Protection status: enabled."
    );
    assert_eq!(lines[2], "");
    assert_eq!(lines[3], format!("User DB: {}", text(&user)));
    assert_eq!(lines[4], "  Readable: yes");
    assert_eq!(lines[5], "  Writable: yes");
    assert!(lines[6].starts_with("  Schema digest: "), "got: {}", lines[6]);
    assert!(lines[6].ends_with(" (UNKNOWN)"));
    assert_eq!(lines[6].len(), "  Schema digest: ".len() + 10 + " (UNKNOWN)".len());
    assert_eq!(lines[7], "");
    assert_eq!(lines[8], format!("System DB: {}", text(&missing)));
    assert_eq!(lines[9], "  Not found");
    assert_eq!(lines[10], "");
}

#[test]
fn info_of_a_store_that_cannot_be_opened() {
    let dir = tempfile::tempdir().unwrap();
    let db = TccDb::with_paths(text(dir.path()), text(dir.path()), DbTarget::User);
    let lines = db.info("unknown", "unknown (csrutil not available)");
    assert_eq!(
        lines,
        vec![
            "macOS version: unknown".to_string(),
            "SIP status: unknown (csrutil not available)".to_string(),
            String::new(),
            format!("User DB: {}", text(dir.path())),
            "  Readable: no".to_string(),
            "  Writable: no".to_string(),
            String::new(),
            format!("System DB: {}", text(dir.path())),
            "  Readable: no".to_string(),
            "  Writable: no".to_string(),
            String::new(),
        ]
    );
}

#[test]
fn store_path_gives_the_location_of_each_store() {
    let db = TccDb::with_paths("/u/TCC.db".to_string(), "/s/TCC.db".to_string(), DbTarget::Default);
    assert_eq!(db.store_path(Store::User), "/u/TCC.db");
    assert_eq!(db.store_path(Store::System), "/s/TCC.db");
    assert_eq!(db.store_path(Store::User), db.user_db_path());
    assert_eq!(db.store_path(Store::System), db.system_db_path());
    assert_eq!(label_of(Store::User), "user");
    assert_eq!(label_of(Store::System), "system");
}

#[test]
fn a_write_that_reaches_its_statement_notes_the_warning() {
    let (_dir, mut db) = make_temp_tcc_db();
    // found nothing: the statement ran, so the warning about the layout is noted
    assert!(matches!(db.revoke("Camera", "com.none"), Err(TccError::NotFound { .. })));
    let noted = db.take_warnings();
    assert_eq!(noted.len(), 1);
    assert!(noted[0].starts_with("Warning: Unknown TCC database schema (digest: "));
    // two writes, two warnings, oldest first, and the same text for the same store
    db.grant("Camera", "com.a").unwrap();
    db.disable("Camera", "com.a").unwrap();
    let both = db.take_warnings();
    assert_eq!(both.len(), 2);
    assert_eq!(both[0], noted[0]);
    assert_eq!(both[1], noted[0]);
}

#[test]
fn a_write_that_fails_before_its_statement_notes_nothing() {
    let dir = tempfile::tempdir().unwrap();
    let path = dir.path().join("TCC.db");
    make_store(&path, "CREATE TABLE other (x INTEGER);");
    let mut db = TccDb::with_paths(text(&path), text(dir.path()), DbTarget::Default);
    assert!(matches!(db.grant("Nope", "c"), Err(TccError::UnknownService(_))));
    assert!(matches!(db.grant("Accessibility", "c"), Err(TccError::NeedsRoot { .. })));
    assert!(matches!(db.grant("Camera", "c"), Err(TccError::SchemaInvalid(_))));
    let mut db = db.with_privilege(true);
    assert!(matches!(db.grant("Accessibility", "c"), Err(TccError::DbOpen { .. })));
    assert!(db.take_warnings().is_empty());
    // the reset of a whole service leaves the log alone, too
    let _ = db.reset("Camera", None);
    assert!(db.take_warnings().is_empty());
}

#[test]
fn a_write_that_the_store_refuses_still_notes_the_warning() {
    let (_dir, mut db) = make_temp_tcc_db();
    db.grant("Camera", "com.a").unwrap();
    assert_eq!(db.take_warnings().len(), 1);
    // a write whose statement the store refuses still notes the warning
    let dir = tempfile::tempdir().unwrap();
    let path = dir.path().join("TCC.db");
    make_store(&path, "CREATE TABLE access (service TEXT, client TEXT);");
    let mut narrow = TccDb::with_paths(text(&path), text(&path), DbTarget::User);
    assert!(matches!(narrow.grant("Camera", "c"), Err(TccError::WriteFailed(_))));
    assert_eq!(narrow.take_warnings().len(), 1);
}
