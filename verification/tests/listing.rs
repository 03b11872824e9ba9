use printers::unix::parse_unix_listing;
use printers::windows::{parse_windows_json_listing, parse_windows_text_listing};
use printers::windows::ListingEntry;
use printers::windows::printers_from_entries;

#[test]
fn unix_listing_two_printers() {
    let records = parse_unix_listing("Printer_A\nPrinter_B\n");
    assert_eq!(records.len(), 2);
    assert_eq!(records[0].name, "Printer A");
    assert_eq!(records[0].system_name, "Printer_A");
    assert_eq!(records[0].driver_name, "");
    assert_eq!(records[1].name, "Printer B");
    assert_eq!(records[1].system_name, "Printer_B");
    assert_eq!(records[1].driver_name, "");
}

#[test]
fn unix_listing_counts_nonempty_lines() {
    let records = parse_unix_listing("a\nb\nc");
    assert_eq!(records.len(), 3);
    assert_eq!(records[2].system_name, "c");
}

#[test]
fn unix_listing_empty_output() {
    let records = parse_unix_listing("");
    assert_eq!(records.len(), 0);
}

#[test]
fn unix_listing_skips_blank_lines() {
    let records = parse_unix_listing("one\n\ntwo\n");
    assert_eq!(records.len(), 2);
    assert_eq!(records[0].system_name, "one");
    assert_eq!(records[1].system_name, "two");
}

#[test]
fn unix_display_name_is_trimmed_cosmetic_form() {
    let records = parse_unix_listing("_Office_Laser_\n");
    assert_eq!(records.len(), 1);
    assert_eq!(records[0].name, "Office Laser");
    assert_eq!(records[0].system_name, "_Office_Laser_");
}

#[test]
fn unix_display_name_trims_unicode_whitespace() {
    let records = parse_unix_listing("\u{A0}Wide_Carriage\u{3000}\n");
    assert_eq!(records.len(), 1);
    assert_eq!(records[0].name, "Wide Carriage");
    assert_eq!(records[0].system_name, "\u{A0}Wide_Carriage\u{3000}");
}

#[test]
fn unix_listing_is_deterministic() {
    let out = "Printer_A\nPrinter_B\n";
    let first = parse_unix_listing(out);
    let second = parse_unix_listing(out);
    assert_eq!(first.len(), second.len());
    for i in 0..first.len() {
        assert_eq!(first[i].name, second[i].name);
        assert_eq!(first[i].system_name, second[i].system_name);
        assert_eq!(first[i].driver_name, second[i].driver_name);
    }
}

#[test]
fn windows_text_listing_two_blocks() {
    let out = "Name       : HP1\r\nDriverName : HP Universal\r\n\r\nName       : Canon\r\nDriverName : Canon Driver";
    let records = parse_windows_text_listing(out);
    assert_eq!(records.len(), 2);
    assert_eq!(records[0].name, "HP1");
    assert_eq!(records[0].system_name, "HP1");
    assert_eq!(records[0].driver_name, "HP Universal");
    assert_eq!(records[1].name, "Canon");
    assert_eq!(records[1].system_name, "Canon");
    assert_eq!(records[1].driver_name, "Canon Driver");
}

#[test]
fn windows_text_listing_trailing_blank_lines() {
    let out = "Name : A\r\nDriverName : D\r\n\r\n";
    let records = parse_windows_text_listing(out);
    assert_eq!(records.len(), 1);
    assert_eq!(records[0].system_name, "A");
    assert_eq!(records[0].driver_name, "D");
}

#[test]
fn windows_text_listing_skips_malformed_block() {
    let out = "Name : A\r\nDriverName : D\r\n\r\nlonely line\r\n\r\nName : B\r\nDriverName : E";
    let records = parse_windows_text_listing(out);
    assert_eq!(records.len(), 2);
    assert_eq!(records[0].system_name, "A");
    assert_eq!(records[1].system_name, "B");
}

#[test]
fn windows_text_listing_skips_empty_name() {
    let out = "Name :\r\nDriverName : D";
    let records = parse_windows_text_listing(out);
    assert_eq!(records.len(), 0);
}

#[test]
fn windows_text_listing_is_deterministic() {
    let out = "Name : A\r\nDriverName : D";
    let first = parse_windows_text_listing(out);
    let second = parse_windows_text_listing(out);
    assert_eq!(first.len(), second.len());
    for i in 0..first.len() {
        assert_eq!(first[i].name, second[i].name);
        assert_eq!(first[i].system_name, second[i].system_name);
        assert_eq!(first[i].driver_name, second[i].driver_name);
    }
}

#[test]
fn windows_json_listing_one_record() {
    let records = parse_windows_json_listing("[{\"Name\":\"HP1\",\"DriverName\":\"HP Universal\"}]").unwrap();
    assert_eq!(records.len(), 1);
    assert_eq!(records[0].name, "HP1");
    assert_eq!(records[0].system_name, "HP1");
    assert_eq!(records[0].driver_name, "HP Universal");
}

#[test]
fn windows_json_listing_invalid_document() {
    assert!(parse_windows_json_listing("not json").is_none());
}

#[test]
fn windows_json_listing_not_an_array() {
    assert!(parse_windows_json_listing("{\"Name\":\"HP1\"}").is_none());
}

#[test]
fn windows_json_listing_missing_driver_is_empty() {
    let records = parse_windows_json_listing("[{\"Name\":\"HP1\"}]").unwrap();
    assert_eq!(records.len(), 1);
    assert_eq!(records[0].driver_name, "");
}

#[test]
fn windows_json_listing_skips_nameless_objects() {
    let records = parse_windows_json_listing(
        "[{\"DriverName\":\"D\"},{\"Name\":7},{\"Name\":\"Real\",\"DriverName\":\"D\"}]",
    )
    .unwrap();
    assert_eq!(records.len(), 1);
    assert_eq!(records[0].system_name, "Real");
}

#[test]
fn windows_json_listing_ignores_extra_fields() {
    let records = parse_windows_json_listing(
        "[{\"Name\":\"HP1\",\"DriverName\":\"D\",\"PortName\":\"USB001\",\"Shared\":false}]",
    )
    .unwrap();
    assert_eq!(records.len(), 1);
    assert_eq!(records[0].name, "HP1");
    assert_eq!(records[0].driver_name, "D");
}

#[test]
fn windows_json_listing_is_deterministic() {
    let doc = "[{\"Name\":\"HP1\",\"DriverName\":\"D\"},{\"Name\":\"B\"}]";
    let first = parse_windows_json_listing(doc).unwrap();
    let second = parse_windows_json_listing(doc).unwrap();
    assert_eq!(first.len(), second.len());
    for i in 0..first.len() {
        assert_eq!(first[i].name, second[i].name);
        assert_eq!(first[i].system_name, second[i].system_name);
        assert_eq!(first[i].driver_name, second[i].driver_name);
    }
}

#[test]
fn entries_normalize_with_name_as_identifier() {
    let entries = vec![
        ListingEntry { name: String::from("HP1"), driver_name: String::from("D") },
        ListingEntry { name: String::new(), driver_name: String::from("ghost") },
    ];
    let records = printers_from_entries(&entries);
    assert_eq!(records.len(), 1);
    assert_eq!(records[0].name, "HP1");
    assert_eq!(records[0].system_name, "HP1");
    assert_eq!(records[0].driver_name, "D");
}
