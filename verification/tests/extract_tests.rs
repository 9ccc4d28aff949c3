use jbod::extract::Decimal;
use jbod::extract::ParseError;
use jbod::extract::extract_first_integer;
use jbod::extract::extract_float;
use jbod::extract::is_string_numeric;

#[test]
fn extract_first_integer_finds_first_run() {
    assert_eq!(extract_first_integer("speed: 7200 rpm, comment"), Some(7200));
    assert_eq!(extract_first_integer("no digits here"), None);
}

#[test]
fn extract_first_integer_stops_after_run() {
    assert_eq!(extract_first_integer("12a34"), Some(12));
    assert_eq!(extract_first_integer("ab-56x"), Some(56));
    assert_eq!(extract_first_integer("007"), Some(7));
    assert_eq!(extract_first_integer(""), None);
}

#[test]
fn extract_first_integer_clamps_huge_runs() {
    assert_eq!(
        extract_first_integer("999999999999999999999999999999 rpm"),
        Some(i64::MAX)
    );
    assert_eq!(extract_first_integer("9223372036854775807"), Some(i64::MAX));
}

#[test]
fn extract_float_parses_decimal() {
    let d = extract_float("12.5").unwrap();
    assert!(!d.negative);
    assert_eq!(d.int_digits, "12");
    assert_eq!(d.frac_digits, "5");
    let back: f64 = d.to_text().parse().unwrap();
    assert_eq!(back, 12.5);
}

#[test]
fn extract_float_rejects_garbage() {
    assert_eq!(extract_float("abc").unwrap_err(), ParseError);
    assert_eq!(extract_float("").unwrap_err(), ParseError);
    assert_eq!(extract_float(".").unwrap_err(), ParseError);
    assert_eq!(extract_float("1.2.3").unwrap_err(), ParseError);
    assert_eq!(extract_float("+").unwrap_err(), ParseError);
    assert_eq!(extract_float("1,5").unwrap_err(), ParseError);
}

#[test]
fn extract_float_signs_and_bare_points() {
    let d = extract_float("-3.25").unwrap();
    assert!(d.negative);
    assert_eq!(d.int_digits, "3");
    assert_eq!(d.frac_digits, "25");

    let d = extract_float("+7").unwrap();
    assert!(!d.negative);
    assert_eq!(d.int_digits, "7");
    assert_eq!(d.frac_digits, "");

    let d = extract_float("5.").unwrap();
    assert_eq!(d.int_digits, "5");
    assert_eq!(d.frac_digits, "");

    let d = extract_float(".5").unwrap();
    assert_eq!(d.int_digits, "");
    assert_eq!(d.frac_digits, "5");
    assert_eq!(d.to_text(), "0.5");
}

#[test]
fn decimal_text_is_canonical() {
    let d = Decimal {
        negative: true,
        int_digits: String::from("12"),
        frac_digits: String::from("5"),
    };
    assert_eq!(d.to_text(), "-12.5");
    let d = extract_float("-.5").unwrap();
    assert_eq!(d.to_text(), "-0.5");
}

#[test]
fn numeric_strings_are_recognised() {
    assert!(is_string_numeric(String::from("123")));
    assert!(!is_string_numeric(String::from("12a")));
    assert!(!is_string_numeric(String::from("-12")));
    assert!(is_string_numeric(String::from("")));
}

#[test]
fn unicode_numerals_count_as_numeric() {
    assert!(is_string_numeric(String::from("½")));
    assert!(is_string_numeric(String::from("Ⅻ٤")));
    assert!(!is_string_numeric(String::from("½x")));
}
