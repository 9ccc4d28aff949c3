use jbod::catalog::fan_line_match;
use jbod::catalog::push_fan_reading;
use jbod::catalog::push_temp_reading;
use jbod::catalog::push_volt_reading;
use jbod::catalog::temp_line_match;
use jbod::catalog::volt_line_match;
use jbod::enclosure::Enclosure;
use jbod::sensors::EnclosureFan;
use jbod::sensors::EnclosureTemperatureSensor;
use jbod::sensors::EnclosureVoltageSensor;

fn enclosure(slot: &str, device: &str, serial: &str) -> Enclosure {
    Enclosure {
        slot: slot.to_string(),
        device_path: device.to_string(),
        vendor: "ACME".to_string(),
        model: "SHELF".to_string(),
        revision: "1.0".to_string(),
        serial: serial.to_string(),
    }
}

#[test]
fn duplicate_listing_lines_cost_one_detail_query() {
    let enc = enclosure("0", "/dev/sg3", "SER1");
    let listing: Vec<String> = vec![
        "  Fan block   [2,-1]   Cooling mechanism".to_string(),
        "  Fan block   [2,-1]   Cooling mechanism".to_string(),
    ];
    let detail: Vec<String> = vec!["Ident, speed: 7200 rpm, Fan at lowest speed".to_string()];
    let mut readings: Vec<EnclosureFan> = Vec::new();
    let mut detail_queries: usize = 0;
    for line in &listing {
        if let Some(m) = fan_line_match(&readings, &enc.serial, line) {
            detail_queries += 1;
            push_fan_reading(&mut readings, &enc, &m, &detail);
        }
    }
    assert_eq!(detail_queries, 1);
    assert_eq!(readings.len(), 1);
    assert_eq!(readings[0].slot, "0");
    assert_eq!(readings[0].serial, "SER1");
    assert_eq!(readings[0].description, "Fan block");
    assert_eq!(readings[0].index, "2,-1");
    assert_eq!(readings[0].speed, 7200);
    assert_eq!(readings[0].comment, "Fan at lowest speed");
}

#[test]
fn same_pair_is_suppressed_across_enclosures() {
    let enc_a = enclosure("0", "/dev/sg3", "NONE");
    let enc_b = enclosure("1", "/dev/sg4", "NONE");
    let line = "  Fan block   [2,-1]   Cooling mechanism".to_string();
    let detail: Vec<String> = vec!["Ident, speed: 7200 rpm, ok".to_string()];
    let mut readings: Vec<EnclosureFan> = Vec::new();
    if let Some(m) = fan_line_match(&readings, &enc_a.serial, &line) {
        push_fan_reading(&mut readings, &enc_a, &m, &detail);
    }
    assert!(fan_line_match(&readings, &enc_b.serial, &line).is_none());
    assert_eq!(readings.len(), 1);
}

#[test]
fn distinct_serials_are_not_deduplicated() {
    let enc_a = enclosure("0", "/dev/sg3", "SER1");
    let enc_b = enclosure("1", "/dev/sg4", "SER2");
    let line = "  Fan block   [2,-1]   Cooling mechanism".to_string();
    let detail: Vec<String> = vec!["Ident, speed: 7200 rpm, ok".to_string()];
    let mut readings: Vec<EnclosureFan> = Vec::new();
    for enc in [&enc_a, &enc_b] {
        if let Some(m) = fan_line_match(&readings, &enc.serial, &line) {
            push_fan_reading(&mut readings, enc, &m, &detail);
        }
    }
    assert_eq!(readings.len(), 2);
    assert_eq!(readings[0].serial, "SER1");
    assert_eq!(readings[1].serial, "SER2");
}

#[test]
fn fan_detail_defaults_to_zero_speed() {
    let enc = enclosure("0", "/dev/sg3", "SER1");
    let line = "  Fan block   [2,-1]   Cooling mechanism".to_string();
    let detail: Vec<String> = vec!["nothing useful".to_string()];
    let mut readings: Vec<EnclosureFan> = Vec::new();
    let m = fan_line_match(&readings, &enc.serial, &line).unwrap();
    push_fan_reading(&mut readings, &enc, &m, &detail);
    assert_eq!(readings[0].speed, 0);
    assert_eq!(readings[0].comment, "");
}

#[test]
fn temperature_digit_run_skips_the_sign() {
    let enc = enclosure("0", "/dev/sg3", "SER1");
    let line = "  Ambient   [0,3]   Temperature sensor".to_string();
    let detail: Vec<String> = vec!["  Temperature=-5 C".to_string()];
    let mut readings: Vec<EnclosureTemperatureSensor> = Vec::new();
    let m = temp_line_match(&readings, &enc.serial, &line).unwrap();
    push_temp_reading(&mut readings, &enc, &m, &detail);
    assert_eq!(readings[0].temperature, 5);
    assert_eq!(readings[0].status, "");
}

#[test]
fn fan_line_with_one_comma_has_no_comment() {
    let enc = enclosure("0", "/dev/sg3", "SER1");
    let line = "  Fan block   [2,-1]   Cooling mechanism".to_string();
    let detail: Vec<String> = vec!["speed, 7200 rpm".to_string()];
    let mut readings: Vec<EnclosureFan> = Vec::new();
    let m = fan_line_match(&readings, &enc.serial, &line).unwrap();
    push_fan_reading(&mut readings, &enc, &m, &detail);
    assert_eq!(readings[0].speed, 7200);
    assert_eq!(readings[0].comment, "");
}

#[test]
fn temperature_detail_is_parsed() {
    let enc = enclosure("0", "/dev/sg3", "SER1");
    let line = "  Ambient   [0,3]   Temperature sensor".to_string();
    let detail: Vec<String> = vec![
        "  Element 3 descriptor:".to_string(),
        "  Predicted failure=0, Element status: OK".to_string(),
        "  Temperature=45 C".to_string(),
    ];
    let mut readings: Vec<EnclosureTemperatureSensor> = Vec::new();
    let m = temp_line_match(&readings, &enc.serial, &line).unwrap();
    push_temp_reading(&mut readings, &enc, &m, &detail);
    assert_eq!(readings.len(), 1);
    assert_eq!(readings[0].description, "Ambient");
    assert_eq!(readings[0].index, "0,3");
    assert_eq!(readings[0].temperature, 45);
    assert_eq!(readings[0].status, "OK");
    assert!(temp_line_match(&readings, &enc.serial, &line).is_none());
}

#[test]
fn voltage_detail_is_parsed_or_fails_hard() {
    let enc = enclosure("0", "/dev/sg3", "SER1");
    let line = "  5V rail   [1,0]   Voltage sensor".to_string();
    let good: Vec<String> = vec![
        "  Element status: OK".to_string(),
        "  Voltage: 5.02 volts".to_string(),
    ];
    let mut readings: Vec<EnclosureVoltageSensor> = Vec::new();
    let m = volt_line_match(&readings, &enc.serial, &line).unwrap();
    push_volt_reading(&mut readings, &enc, &m, &good).unwrap();
    assert_eq!(readings.len(), 1);
    assert_eq!(readings[0].voltage.to_text(), "5.02");
    assert_eq!(readings[0].status, "OK");

    let bad: Vec<String> = vec!["  Voltage: abc volts".to_string()];
    let line2 = "  12V rail   [1,1]   Voltage sensor".to_string();
    let m2 = volt_line_match(&readings, &enc.serial, &line2).unwrap();
    assert!(push_volt_reading(&mut readings, &enc, &m2, &bad).is_err());
    assert_eq!(readings.len(), 1);
}

#[test]
fn voltage_defaults_to_zero_without_a_voltage_line() {
    let enc = enclosure("0", "/dev/sg3", "SER1");
    let line = "  5V rail   [1,0]   Voltage sensor".to_string();
    let detail: Vec<String> = vec!["  Element status: OK".to_string()];
    let mut readings: Vec<EnclosureVoltageSensor> = Vec::new();
    let m = volt_line_match(&readings, &enc.serial, &line).unwrap();
    push_volt_reading(&mut readings, &enc, &m, &detail).unwrap();
    assert_eq!(readings[0].voltage.to_text(), "0");
}

#[test]
fn not_installed_status_is_filterable_by_equality() {
    let enc = enclosure("0", "/dev/sg3", "SER1");
    let mut readings: Vec<EnclosureTemperatureSensor> = Vec::new();
    let absent = "  Spare slot   [0,7]   Temperature sensor".to_string();
    let present = "  Ambient   [0,3]   Temperature sensor".to_string();
    let absent_detail: Vec<String> = vec!["  Element status: Not installed".to_string()];
    let present_detail: Vec<String> = vec![
        "  Element status: OK".to_string(),
        "  Temperature=31 C".to_string(),
    ];
    let m = temp_line_match(&readings, &enc.serial, &absent).unwrap();
    push_temp_reading(&mut readings, &enc, &m, &absent_detail);
    let m = temp_line_match(&readings, &enc.serial, &present).unwrap();
    push_temp_reading(&mut readings, &enc, &m, &present_detail);

    assert_eq!(readings[0].status, "Not installed");
    assert!(!readings[0].is_installed());
    assert!(readings[1].is_installed());
    let shown: Vec<&EnclosureTemperatureSensor> =
        readings.iter().filter(|t| t.status != "Not installed").collect();
    assert_eq!(shown.len(), 1);
    assert_eq!(shown[0].temperature, 31);
}
