use tccutil_rs::catalog::{catalog_by_display, catalog_display};
use tccutil_rs::json::{json_services_data, json_services_in};
use tccutil_rs::table::{
    byte_length, column_widths, header_line, pad_right, table_lines, rule_line, shown_clients,
    table_with, Widths,
};
use tccutil_rs::TccEntry;

fn entry(display: &str, client: &str, auth_value: i32, modified: &str, is_system: bool) -> TccEntry {
    TccEntry {
        service_raw: format!("kTCCService{}", display),
        service_display: display.to_string(),
        client: client.to_string(),
        auth_value,
        last_modified: modified.to_string(),
        is_system,
    }
}

#[test]
fn pad_right_fills_up_with_spaces() {
    assert_eq!(pad_right("ab", 5), "ab   ");
    assert_eq!(pad_right("abcde", 5), "abcde");
    assert_eq!(pad_right("abcdef", 5), "abcdef");
    assert_eq!(pad_right("", 0), "");
    assert_eq!(pad_right("", 2), "  ");
    // characters count, not bytes
    assert_eq!(pad_right("\u{e9}", 3), "\u{e9}  ");
}

#[test]
fn byte_length_counts_bytes() {
    assert_eq!(byte_length(""), 0);
    assert_eq!(byte_length("abc"), 3);
    assert_eq!(byte_length("\u{e9}"), 2);
    assert_eq!(byte_length("\u{2033}"), 3);
}

#[test]
fn column_widths_are_at_least_the_headings() {
    let none: Vec<TccEntry> = Vec::new();
    let w = column_widths(&none, false);
    assert!(w == Widths { service: 7, client: 6, status: 6, source: 6, modified: 13 });
    let entries = vec![
        entry("Full Disk Access", "/usr/local/bin/tool", 2, "2024-01-01 00:00:00", false),
        entry("Camera", "com.a", 12345, "N/A", true),
    ];
    let w = column_widths(&entries, false);
    assert!(w == Widths { service: 16, client: 19, status: 14, source: 6, modified: 19 });
    let w = column_widths(&entries, true);
    assert!(w == Widths { service: 16, client: 6, status: 14, source: 6, modified: 19 });
    assert_eq!(shown_clients(&entries, true), vec!["tool".to_string(), "com.a".to_string()]);
    assert_eq!(
        shown_clients(&entries, false),
        vec!["/usr/local/bin/tool".to_string(), "com.a".to_string()]
    );
}

#[test]
fn header_and_rule_lines() {
    let w = Widths { service: 9, client: 6, status: 7, source: 6, modified: 13 };
    assert_eq!(header_line(&w), "SERVICE    CLIENT  STATUS   SOURCE  LAST MODIFIED");
    assert_eq!(
        rule_line(&w),
        "\u{2500}\u{2500}\u{2500}\u{2500}\u{2500}\u{2500}\u{2500}\u{2500}\u{2500}  \
         \u{2500}\u{2500}\u{2500}\u{2500}\u{2500}\u{2500}  \
         \u{2500}\u{2500}\u{2500}\u{2500}\u{2500}\u{2500}\u{2500}  \
         \u{2500}\u{2500}\u{2500}\u{2500}\u{2500}\u{2500}  \
         \u{2500}\u{2500}\u{2500}\u{2500}\u{2500}\u{2500}\u{2500}\u{2500}\u{2500}\u{2500}\u{2500}\u{2500}\u{2500}"
    );
}

#[test]
fn table_of_no_entries_is_the_note() {
    let none: Vec<TccEntry> = Vec::new();
    assert_eq!(
        table_with(&none, false, &Vec::new(), "No entries found."),
        vec!["No entries found.".to_string()]
    );
    let printed = table_lines(&none, true);
    assert_eq!(printed.len(), 1);
    assert!(printed[0].contains("No entries found."));
}

#[test]
fn table_rows_pad_cells_and_mark_repeated_clients() {
    let entries = vec![
        entry("Camera", "com.a", 2, "2024-01-01 00:00:00", false),
        entry("Microphone", "com.a", 0, "N/A", true),
        entry("Photos", "com.b", 5, "N/A", false),
    ];
    let painted = vec!["<granted>".to_string(), "<denied>".to_string()];
    let lines = table_with(&entries, false, &painted, "nothing");
    assert_eq!(
        lines,
        vec![
            "SERVICE     CLIENT  STATUS      SOURCE  LAST MODIFIED".to_string(),
            "\u{2500}".repeat(10)
                + "  "
                + &"\u{2500}".repeat(6)
                + "  "
                + &"\u{2500}".repeat(10)
                + "  "
                + &"\u{2500}".repeat(6)
                + "  "
                + &"\u{2500}".repeat(19),
            "Camera      com.a   <granted>     user    2024-01-01 00:00:00".to_string(),
            "Microphone  \u{2033}       <denied>      system  N/A".to_string(),
            "Photos      com.b   unknown(5)  user    N/A".to_string(),
            String::new(),
            "3 entries total".to_string(),
        ]
    );
}

#[test]
fn print_entries_has_a_row_for_each_entry() {
    let entries = vec![
        entry("Camera", "/usr/bin/a", 2, "N/A", false),
        entry("Camera", "/opt/bin/a", 7, "N/A", false),
    ];
    let lines = table_lines(&entries, true);
    assert_eq!(lines.len(), 6);
    assert_eq!(lines[0], "SERVICE  CLIENT  STATUS      SOURCE  LAST MODIFIED");
    assert!(lines[2].starts_with("Camera   a       "));
    assert!(lines[2].contains("granted"));
    assert_eq!(lines[3], "Camera   \u{2033}       unknown(7)  user    N/A");
    assert_eq!(lines[4], "");
    assert_eq!(lines[5], "2 entries total");
}

#[test]
fn catalog_by_display_is_sorted_and_complete() {
    let order = catalog_by_display();
    assert_eq!(order.len(), 31);
    let mut seen = order.clone();
    seen.sort();
    assert_eq!(seen, (0..31).collect::<Vec<usize>>());
    let names: Vec<&str> = order.iter().map(|i| catalog_display(*i)).collect();
    let mut sorted = names.clone();
    sorted.sort();
    assert_eq!(names, sorted);
    assert_eq!(names[0], "Accessibility");
    assert_eq!(names[30], "User Data (Liverpool)");
}

#[test]
fn json_services_lists_the_catalog_by_display_name() {
    let data = json_services_data();
    assert!(data.starts_with(
        "{\"services\":[{\"internal_name\":\"kTCCServiceAccessibility\",\
         \"description\":\"Accessibility\"},{\"internal_name\":\"kTCCServiceAddressBook\",\
         \"description\":\"Address Book\"},"
    ));
    assert!(data.ends_with(
        ",{\"internal_name\":\"kTCCServiceLiverpool\",\"description\":\"User Data (Liverpool)\"}]}"
    ));
    assert_eq!(data.matches("\"internal_name\"").count(), 31);
}

#[test]
fn json_services_in_a_given_order() {
    assert_eq!(json_services_in(&Vec::new()), "{\"services\":[]}");
    assert_eq!(
        json_services_in(&vec![10, 0]),
        "{\"services\":[{\"internal_name\":\"kTCCServiceCamera\",\"description\":\"Camera\"},\
         {\"internal_name\":\"kTCCServiceAccessibility\",\"description\":\"Accessibility\"}]}"
    );
    assert_eq!(
        json_services_in(&vec![99, 11]),
        "{\"services\":[{\"internal_name\":\"kTCCServiceMicrophone\",\
         \"description\":\"Microphone\"}]}"
    );
}
