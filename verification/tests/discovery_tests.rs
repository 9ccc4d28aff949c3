use jbod::enclosure::enclosure_from_parts;
use jbod::enclosure::parse_identity_output;
use jbod::enclosure::parse_lister_line;
use jbod::enclosure::parse_lister_output;

#[test]
fn three_enclosure_rows_give_three_pairs() {
    let lines: Vec<String> = vec![
        "[0:0:0:0]    disk    ATA      SSDMODEL         1.0   /dev/sda   /dev/sg0".to_string(),
        "[0:0:8:0]    enclosu DP       BP13G+EXP        2.25  -          /dev/sg2".to_string(),
        "[1:0:8:0]    enclosu DP       BP13G+EXP        2.25  -          /dev/sg5".to_string(),
        "[5]          enclosu ACME     SHELF            0.1   -          /dev/sg9".to_string(),
        "[1:0:0:0]    disk    ATA      SSDMODEL         1.0   /dev/sdb   /dev/sg1".to_string(),
    ];
    let pairs = parse_lister_output(&lines);
    assert_eq!(pairs.len(), 3);
    assert_eq!(pairs[0].0, "0:0:8:0");
    assert_eq!(pairs[0].1, "/dev/sg2");
    assert_eq!(pairs[1].0, "1:0:8:0");
    assert_eq!(pairs[1].1, "/dev/sg5");
    assert_eq!(pairs[2].0, "5");
    assert_eq!(pairs[2].1, "/dev/sg9");
}

#[test]
fn vendor_only_identity_defaults_the_rest() {
    let lines: Vec<String> = vec!["Vendor identification: ACME".to_string()];
    let id = parse_identity_output(&lines);
    assert_eq!(id.vendor, "ACME");
    assert_eq!(id.model, "NONE");
    assert_eq!(id.revision, "NONE");
    assert_eq!(id.serial, "NONE");
}

#[test]
fn lister_row_and_vendor_line_end_to_end() {
    let (slot, device) = parse_lister_line("[0]  disk  enclosu  ...  /dev/sg3").unwrap();
    let id = parse_identity_output(&vec!["Vendor identification: ACME".to_string()]);
    let enc = enclosure_from_parts(slot, device, id);
    assert_eq!(enc.slot, "0");
    assert_eq!(enc.device_path, "/dev/sg3");
    assert_eq!(enc.vendor, "ACME");
    assert_eq!(enc.model, "NONE");
    assert_eq!(enc.revision, "NONE");
    assert_eq!(enc.serial, "NONE");
}

#[test]
fn rows_without_marker_or_device_are_skipped() {
    assert!(parse_lister_line("[0:0:0:0] disk ATA SSD 1.0 /dev/sda").is_none());
    assert!(parse_lister_line("[1] enclosu no device column here").is_none());
    assert!(parse_lister_line("").is_none());
}

#[test]
fn full_identity_output_is_parsed() {
    let lines: Vec<String> = vec![
        "  standard INQUIRY:".to_string(),
        "  Vendor identification: DP".to_string(),
        "  Product identification: BP13G+EXP".to_string(),
        "  Product revision level: 2.25".to_string(),
        "  Unit serial number: CN0123456789".to_string(),
    ];
    let id = parse_identity_output(&lines);
    assert_eq!(id.vendor, "DP");
    assert_eq!(id.model, "BP13G+EXP");
    assert_eq!(id.revision, "2.25");
    assert_eq!(id.serial, "CN0123456789");
}

#[test]
fn last_occurrence_of_a_key_wins() {
    let lines: Vec<String> = vec![
        "Unit serial number: FIRST".to_string(),
        "Unit serial number: SECOND".to_string(),
    ];
    let id = parse_identity_output(&lines);
    assert_eq!(id.serial, "SECOND");
}
