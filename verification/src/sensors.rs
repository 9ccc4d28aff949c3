//! Sensor readings and the parsers for per-index detail queries.
//!
//! Once the matcher has found a composite index, a second query against
//! the same device returns a small page with the numeric reading and a
//! status line.  The parsers here fold over those lines: the last line
//! that carries the marker wins, fields whose marker never occurs keep
//! their documented default (`0` for numbers, the empty string for
//! text), and only a malformed voltage token is a hard error, because a
//! voltage has no safe zero default.

use vstd::prelude::*;
use vstd::string::StrSliceExecFns;
use vstd::string::StringExecFns;

use crate::extract::Decimal;
use crate::extract::ParseError;
use crate::extract::clip_i64;
use crate::extract::decimal_frac_digits;
use crate::extract::decimal_int_digits;
use crate::extract::decimal_negative;
use crate::extract::extract_first_integer;
use crate::extract::extract_float;
use crate::extract::first_integer;
use crate::extract::is_decimal_literal;
use crate::extract::all_digit_chars;
use crate::scan::after_key;
use crate::scan::contains_sub;
use crate::scan::find_char;
use crate::scan::find_char_at;
use crate::scan::find_space;
use crate::scan::find_space_at;
use crate::scan::skip_space;
use crate::scan::skip_space_at;
use crate::scan::str_contains;
use crate::scan::trim_spec;
use crate::scan::trim_str;
use crate::scan::value_after_key;

verus! {

/// One fan (cooling element) of an enclosure.
#[derive(Debug)]
pub struct EnclosureFan {
    /// The slot label of the enclosure that holds the fan.
    pub slot: String,
    /// The serial number of that enclosure.
    pub serial: String,
    /// The component name reported next to the composite index.
    pub description: String,
    /// The opaque composite index the detail query addresses the fan by.
    pub index: String,
    /// The fan speed in RPM; `0` when the detail output held no number.
    pub speed: i64,
    /// Vendor-specific annotation that follows the speed field.
    pub comment: String,
}

/// One temperature sensor of an enclosure.
#[derive(Debug)]
pub struct EnclosureTemperatureSensor {
    pub slot: String,
    pub serial: String,
    pub description: String,
    pub index: String,
    /// Degrees Celsius; `0` when the detail output held no number.
    pub temperature: i64,
    /// The raw status text; `Not installed` marks an absent element.
    pub status: String,
}

/// One voltage sensor of an enclosure.
#[derive(Debug)]
pub struct EnclosureVoltageSensor {
    pub slot: String,
    pub serial: String,
    pub description: String,
    pub index: String,
    /// The measured voltage, kept exactly as its decimal parts.
    pub voltage: Decimal,
    /// The raw status text; `Not installed` marks an absent element.
    pub status: String,
}

impl EnclosureTemperatureSensor {
    /// True unless the sensor reported itself absent.  Consumers drop
    /// uninstalled sensors with this one equality test.
    pub fn is_installed(&self) -> (r: bool)
        ensures
            r == (self.status@ != "Not installed"@),
    {
        !crate::scan::str_eq(self.status.as_str(), "Not installed")
    }
}

impl EnclosureVoltageSensor {
    /// True unless the sensor reported itself absent.
    pub fn is_installed(&self) -> (r: bool)
        ensures
            r == (self.status@ != "Not installed"@),
    {
        !crate::scan::str_eq(self.status.as_str(), "Not installed")
    }
}

/// The speed encoded by one fan detail line: the first integer of the
/// field after the first comma; `0` when the line has no comma or the
/// field has no digits.
pub open spec fn fan_line_speed(l: Seq<char>) -> int {
    let c1 = find_char(l, 0, ',');
    if c1 == l.len() {
        0
    } else {
        let c2 = find_char(l, c1 + 1, ',');
        match first_integer(l.subrange(c1 + 1, c2)) {
            Some(v) => clip_i64(v),
            None => 0,
        }
    }
}

/// The comment of one fan detail line: the trimmed field after the
/// second comma; empty when the line has fewer than two commas.
pub open spec fn fan_line_comment(l: Seq<char>) -> Seq<char> {
    let c1 = find_char(l, 0, ',');
    if c1 == l.len() {
        Seq::empty()
    } else {
        let c2 = find_char(l, c1 + 1, ',');
        if c2 == l.len() {
            Seq::empty()
        } else {
            trim_spec(l.subrange(c2 + 1, find_char(l, c2 + 1, ',')))
        }
    }
}

/// The fan speed over a whole detail output: the last line mentioning
/// `speed` decides; `0` when none does.
pub open spec fn fan_detail_speed(lines: Seq<Seq<char>>) -> int
    decreases lines.len(),
{
    if lines.len() == 0 {
        0
    } else if contains_sub(lines.last(), "speed"@) {
        fan_line_speed(lines.last())
    } else {
        fan_detail_speed(lines.drop_last())
    }
}

/// The fan comment over a whole detail output; empty when no line
/// mentions `speed`.
pub open spec fn fan_detail_comment(lines: Seq<Seq<char>>) -> Seq<char>
    decreases lines.len(),
{
    if lines.len() == 0 {
        Seq::empty()
    } else if contains_sub(lines.last(), "speed"@) {
        fan_line_comment(lines.last())
    } else {
        fan_detail_comment(lines.drop_last())
    }
}

fn fan_line_parse(line: &str) -> (r: (i64, String))
    ensures
        r.0 as int == fan_line_speed(line@),
        r.1@ == fan_line_comment(line@),
{
    let n: usize = line.unicode_len();
    let c1: usize = find_char_at(line, 0, ',');
    if c1 == n {
        return (0, String::new());
    }
    let c2: usize = find_char_at(line, c1 + 1, ',');
    let field = line.substring_char(c1 + 1, c2);
    let speed: i64 = match extract_first_integer(field) {
        Some(v) => v,
        None => 0,
    };
    let comment = if c2 == n {
        String::new()
    } else {
        let c3: usize = find_char_at(line, c2 + 1, ',');
        String::from_str(trim_str(line.substring_char(c2 + 1, c3)))
    };
    (speed, comment)
}

/// Parses one fan detail output into speed and comment.
pub fn parse_fan_detail(lines: &Vec<String>) -> (r: (i64, String))
    ensures
        r.0 as int == fan_detail_speed(lines.deep_view()),
        r.1@ == fan_detail_comment(lines.deep_view()),
{
    let mut speed: i64 = 0;
    let mut comment = String::new();
    let mut i: usize = 0;
    while i < lines.len()
        invariant
            i <= lines.len(),
            speed as int == fan_detail_speed(lines.deep_view().subrange(0, i as int)),
            comment@ == fan_detail_comment(lines.deep_view().subrange(0, i as int)),
        decreases lines.len() - i,
    {
        proof {
            assert(lines.deep_view().subrange(0, i as int + 1).drop_last() =~= lines.deep_view()
                .subrange(0, i as int));
            assert(lines.deep_view().subrange(0, i as int + 1).last() == lines@[i as int]@);
        }
        let line = &lines[i];
        if str_contains(line.as_str(), "speed") {
            let (s, c) = fan_line_parse(line.as_str());
            speed = s;
            comment = c;
        }
        i = i + 1;
    }
    proof {
        assert(lines.deep_view().subrange(0, lines@.len() as int) =~= lines.deep_view());
    }
    (speed, comment)
}

/// The status text over a whole detail output: the trimmed text after
/// `status:` on the last line that holds it; empty when none does.
pub open spec fn detail_status(lines: Seq<Seq<char>>) -> Seq<char>
    decreases lines.len(),
{
    if lines.len() == 0 {
        Seq::empty()
    } else if contains_sub(lines.last(), "status:"@) {
        after_key(lines.last(), "status:"@)
    } else {
        detail_status(lines.drop_last())
    }
}

/// The temperature encoded by one detail line: the first integer right
/// of the first `=`; `0` when there is no `=` or no digit after it.
pub open spec fn temp_line_value(l: Seq<char>) -> int {
    let e = find_char(l, 0, '=');
    if e == l.len() {
        0
    } else {
        match first_integer(l.subrange(e + 1, l.len() as int)) {
            Some(v) => clip_i64(v),
            None => 0,
        }
    }
}

/// The temperature over a whole detail output: the last line mentioning
/// `Temperature=` decides; `0` when none does.
pub open spec fn temp_detail_value(lines: Seq<Seq<char>>) -> int
    decreases lines.len(),
{
    if lines.len() == 0 {
        0
    } else if contains_sub(lines.last(), "Temperature="@) {
        temp_line_value(lines.last())
    } else {
        temp_detail_value(lines.drop_last())
    }
}

/// Parses one temperature detail output into the reading and the status
/// text.
pub fn parse_temp_detail(lines: &Vec<String>) -> (r: (i64, String))
    ensures
        r.0 as int == temp_detail_value(lines.deep_view()),
        r.1@ == detail_status(lines.deep_view()),
{
    proof {
        reveal_strlit("status:");
    }
    let mut temperature: i64 = 0;
    let mut status = String::new();
    let mut i: usize = 0;
    while i < lines.len()
        invariant
            i <= lines.len(),
            temperature as int == temp_detail_value(lines.deep_view().subrange(0, i as int)),
            status@ == detail_status(lines.deep_view().subrange(0, i as int)),
        decreases lines.len() - i,
    {
        proof {
            reveal_strlit("status:");
            assert(lines.deep_view().subrange(0, i as int + 1).drop_last() =~= lines.deep_view()
                .subrange(0, i as int));
            assert(lines.deep_view().subrange(0, i as int + 1).last() == lines@[i as int]@);
        }
        let line = &lines[i];
        if str_contains(line.as_str(), "status:") {
            status = value_after_key(line.as_str(), "status:");
        }
        if str_contains(line.as_str(), "Temperature=") {
            let n: usize = line.as_str().unicode_len();
            let e: usize = find_char_at(line.as_str(), 0, '=');
            if e == n {
                temperature = 0;
            } else {
                temperature = match extract_first_integer(line.as_str().substring_char(e + 1, n)) {
                    Some(v) => v,
                    None => 0,
                };
            }
        }
        i = i + 1;
    }
    proof {
        assert(lines.deep_view().subrange(0, lines@.len() as int) =~= lines.deep_view());
    }
    (temperature, status)
}

/// The second whitespace-separated token of a voltage detail line, where
/// the number stands (`  Voltage: 5.02 volts`).
pub open spec fn voltage_token(l: Seq<char>) -> Seq<char> {
    let a1 = skip_space(l, find_space(l, skip_space(l, 0)));
    l.subrange(a1, find_space(l, a1))
}

pub open spec fn voltage_token_exists(l: Seq<char>) -> bool {
    skip_space(l, find_space(l, skip_space(l, 0))) < l.len()
}

/// The voltage over a whole detail output, as decimal parts: the last
/// line mentioning `Voltage:` decides, `None` standing for a hard parse
/// error.  When no line mentions it the reading defaults to zero.
pub open spec fn voltage_detail(lines: Seq<Seq<char>>) -> Option<(bool, Seq<char>, Seq<char>)>
    decreases lines.len(),
{
    if lines.len() == 0 {
        Some((false, "0"@, Seq::<char>::empty()))
    } else if contains_sub(lines.last(), "Voltage:"@) {
        let t = voltage_token(lines.last());
        if voltage_token_exists(lines.last()) && is_decimal_literal(t) {
            Some((decimal_negative(t), decimal_int_digits(t), decimal_frac_digits(t)))
        } else {
            None
        }
    } else {
        voltage_detail(lines.drop_last())
    }
}

/// Parses one voltage detail output into the voltage and the status
/// text.  A missing or malformed voltage token is a hard error for this
/// one reading: there is no safe default voltage.
pub fn parse_voltage_detail(lines: &Vec<String>) -> (r: Result<(Decimal, String), ParseError>)
    ensures
        r is Ok <==> voltage_detail(lines.deep_view()) is Some,
        r is Ok ==> (r->Ok_0).0.negative == (voltage_detail(lines.deep_view())->Some_0).0,
        r is Ok ==> (r->Ok_0).0.int_digits@ == (voltage_detail(lines.deep_view())->Some_0).1,
        r is Ok ==> (r->Ok_0).0.frac_digits@ == (voltage_detail(lines.deep_view())->Some_0).2,
        r is Ok ==> (r->Ok_0).0.wf(),
        r is Ok ==> (r->Ok_0).1@ == detail_status(lines.deep_view()),
{
    proof {
        reveal_strlit("status:");
        reveal_strlit("0");
        assert(all_digit_chars("0"@)) by {
            assert("0"@.len() == 1 && "0"@[0] == '0');
        }
    }
    let mut voltage: Result<Decimal, ParseError> = Ok(
        Decimal { negative: false, int_digits: String::from_str("0"), frac_digits: String::new() },
    );
    let mut status = String::new();
    let mut i: usize = 0;
    while i < lines.len()
        invariant
            i <= lines.len(),
            voltage is Ok <==> voltage_detail(lines.deep_view().subrange(0, i as int)) is Some,
            voltage is Ok ==> (voltage->Ok_0).negative == (voltage_detail(
                lines.deep_view().subrange(0, i as int),
            )->Some_0).0,
            voltage is Ok ==> (voltage->Ok_0).int_digits@ == (voltage_detail(
                lines.deep_view().subrange(0, i as int),
            )->Some_0).1,
            voltage is Ok ==> (voltage->Ok_0).frac_digits@ == (voltage_detail(
                lines.deep_view().subrange(0, i as int),
            )->Some_0).2,
            voltage is Ok ==> (voltage->Ok_0).wf(),
            status@ == detail_status(lines.deep_view().subrange(0, i as int)),
        decreases lines.len() - i,
    {
        proof {
            reveal_strlit("status:");
            assert(lines.deep_view().subrange(0, i as int + 1).drop_last() =~= lines.deep_view()
                .subrange(0, i as int));
            assert(lines.deep_view().subrange(0, i as int + 1).last() == lines@[i as int]@);
        }
        let line = &lines[i];
        if str_contains(line.as_str(), "status:") {
            status = value_after_key(line.as_str(), "status:");
        }
        if str_contains(line.as_str(), "Voltage:") {
            let n: usize = line.as_str().unicode_len();
            let a0: usize = skip_space_at(line.as_str(), 0);
            let e0: usize = find_space_at(line.as_str(), a0);
            let a1: usize = skip_space_at(line.as_str(), e0);
            if a1 == n {
                voltage = Err(ParseError);
            } else {
                let e1: usize = find_space_at(line.as_str(), a1);
                let token = line.as_str().substring_char(a1, e1);
                voltage = extract_float(token);
            }
        }
        i = i + 1;
    }
    proof {
        assert(lines.deep_view().subrange(0, lines@.len() as int) =~= lines.deep_view());
    }
    match voltage {
        Ok(v) => Ok((v, status)),
        Err(e) => Err(e),
    }
}

} // verus!
