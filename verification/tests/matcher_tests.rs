use jbod::matcher::SensorClass;
use jbod::matcher::match_class_line;
use jbod::matcher::match_sensor_line;

#[test]
fn fan_line_yields_description_and_index() {
    let m = match_class_line(SensorClass::Fan, "  Fan block   [2,-1]   Cooling mechanism")
        .unwrap();
    assert_eq!(m.description, "Fan block");
    assert_eq!(m.index, "2,-1");
}

#[test]
fn line_without_keyword_is_skipped() {
    assert!(match_class_line(SensorClass::Fan, "  Fan block   [2,-1]   spinning").is_none());
}

#[test]
fn keyword_must_follow_the_bracket() {
    assert!(match_sensor_line("Cooling summary [2,-1] nothing else", "Cooling").is_none());
    let m = match_sensor_line("Cooling [2,-1] Cooling", "Cooling").unwrap();
    assert_eq!(m.description, "Cooling");
    assert_eq!(m.index, "2,-1");
}

#[test]
fn index_must_be_two_signed_integers() {
    assert!(match_sensor_line("x [abc] Cooling", "Cooling").is_none());
    assert!(match_sensor_line("x [12] Cooling", "Cooling").is_none());
    assert!(match_sensor_line("x [1,2,3] Cooling", "Cooling").is_none());
    assert!(match_sensor_line("x [1,] Cooling", "Cooling").is_none());
    assert!(match_sensor_line("x [-,1] Cooling", "Cooling").is_none());
    let m = match_sensor_line("x [-4,-12] Cooling", "Cooling").unwrap();
    assert_eq!(m.index, "-4,-12");
}

#[test]
fn leftmost_valid_bracket_wins() {
    let m = match_sensor_line("x [9] y [1,2] z [3,4] Cooling", "Cooling").unwrap();
    assert_eq!(m.description, "x [9] y");
    assert_eq!(m.index, "1,2");
}

#[test]
fn temperature_and_voltage_keywords() {
    let m = match_class_line(
        SensorClass::Temperature,
        "  Ambient   [0,3]   Temperature sensor",
    )
    .unwrap();
    assert_eq!(m.description, "Ambient");
    assert_eq!(m.index, "0,3");

    let m = match_class_line(SensorClass::Voltage, "  5V rail   [1,0]   Voltage sensor").unwrap();
    assert_eq!(m.description, "5V rail");
    assert_eq!(m.index, "1,0");

    assert!(match_class_line(SensorClass::Voltage, "  Ambient   [0,3]   Temperature sensor")
        .is_none());
}

#[test]
fn non_ascii_descriptions_survive() {
    let m = match_sensor_line("  Gehäuse-Lüfter   [2,-1]   Cooling", "Cooling").unwrap();
    assert_eq!(m.description, "Gehäuse-Lüfter");
    assert_eq!(m.index, "2,-1");
}

#[test]
fn empty_description_is_allowed() {
    let m = match_sensor_line("[2,-1] Cooling", "Cooling").unwrap();
    assert_eq!(m.description, "");
    assert_eq!(m.index, "2,-1");
}
