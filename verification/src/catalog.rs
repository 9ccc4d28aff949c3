//! Per-class sensor catalogues with duplicate suppression.
//!
//! A sensor listing may emit more than one line for the same physical
//! element, and two enclosures may even report the same serial.  Within
//! one inventory pass a catalogue therefore accepts at most one reading
//! per (composite index, enclosure serial) pair: `*_line_match` yields a
//! capture only when the line matches the class pattern and its pair is
//! not in the catalogue yet, and `push_*_reading` appends the reading
//! built from the detail query that the caller ran for that capture.
//! The three classes share this structure, one instance each.

use vstd::prelude::*;

use crate::enclosure::Enclosure;
use crate::extract::ParseError;
use crate::matcher::LineMatch;
use crate::matcher::SensorClass;
use crate::matcher::line_matches;
use crate::matcher::match_class_line;
use crate::matcher::match_description;
use crate::matcher::match_index;
use crate::scan::str_eq;
use crate::sensors::EnclosureFan;
use crate::sensors::EnclosureTemperatureSensor;
use crate::sensors::EnclosureVoltageSensor;
use crate::sensors::detail_status;
use crate::sensors::fan_detail_comment;
use crate::sensors::fan_detail_speed;
use crate::sensors::parse_fan_detail;
use crate::sensors::parse_temp_detail;
use crate::sensors::parse_voltage_detail;
use crate::sensors::temp_detail_value;
use crate::sensors::voltage_detail;

verus! {

/// No reading in `s` already carries this (index, serial) pair.
pub open spec fn fan_pair_fresh(s: Seq<EnclosureFan>, index: Seq<char>, serial: Seq<char>) -> bool {
    forall|k: int|
        0 <= k < s.len() ==> !(#[trigger] s[k].index@ == index && s[k].serial@ == serial)
}

/// Every (index, serial) pair occurs at most once in `s`.
pub open spec fn fan_pairs_unique(s: Seq<EnclosureFan>) -> bool {
    forall|i: int, j: int|
        0 <= i < j < s.len() ==> !(#[trigger] s[i].index@ == #[trigger] s[j].index@
            && s[i].serial@ == s[j].serial@)
}

/// Law: within one pass, the guarded push keeps the fan catalogue free
/// of duplicate (index, serial) pairs — however often the listing
/// re-emits a line for the same element, at most one reading per pair
/// can ever appear.
pub proof fn lemma_fan_dedup_push(s: Seq<EnclosureFan>, r: EnclosureFan)
    requires
        fan_pairs_unique(s),
        fan_pair_fresh(s, r.index@, r.serial@),
    ensures
        fan_pairs_unique(s.push(r)),
{
    let t = s.push(r);
    assert forall|i: int, j: int| 0 <= i < j < t.len() implies !(t[i].index@ == t[j].index@
        && t[i].serial@ == t[j].serial@) by {
        if j == s.len() as int {
            assert(t[i] == s[i]);
        } else {
            assert(t[i] == s[i] && t[j] == s[j]);
        }
    }
}

pub fn fan_pair_present(readings: &Vec<EnclosureFan>, index: &str, serial: &str) -> (r: bool)
    ensures
        r == !fan_pair_fresh(readings@, index@, serial@),
{
    let mut k: usize = 0;
    while k < readings.len()
        invariant
            k <= readings.len(),
            forall|m: int|
                0 <= m < k ==> !(#[trigger] readings@[m].index@ == index@ && readings@[m].serial@
                    == serial@),
        decreases readings.len() - k,
    {
        let rd = &readings[k];
        if str_eq(rd.index.as_str(), index) && str_eq(rd.serial.as_str(), serial) {
            return true;
        }
        k = k + 1;
    }
    false
}

/// Applies the fan pattern to one listing line for the enclosure with
/// this serial.  Yields the capture exactly when the line matches and
/// the (index, serial) pair is new, so each yielded capture stands for
/// exactly one detail query.
pub fn fan_line_match(readings: &Vec<EnclosureFan>, serial: &str, line: &str) -> (r: Option<
    LineMatch,
>)
    ensures
        r is Some <==> line_matches(line@, "Cooling"@) && fan_pair_fresh(
            readings@,
            match_index(line@, "Cooling"@),
            serial@,
        ),
        r is Some ==> (r->Some_0).description@ == match_description(line@, "Cooling"@),
        r is Some ==> (r->Some_0).index@ == match_index(line@, "Cooling"@),
{
    match match_class_line(SensorClass::Fan, line) {
        None => None,
        Some(m) => {
            if fan_pair_present(readings, m.index.as_str(), serial) {
                None
            } else {
                Some(m)
            }
        },
    }
}

/// Appends the fan reading for a fresh capture, with speed and comment
/// parsed from the detail-query output the caller ran for it.
pub fn push_fan_reading(
    readings: &mut Vec<EnclosureFan>,
    enc: &Enclosure,
    m: &LineMatch,
    detail_lines: &Vec<String>,
)
    requires
        fan_pair_fresh(old(readings)@, m.index@, enc.serial@),
    ensures
        final(readings)@.len() == old(readings)@.len() + 1,
        final(readings)@.subrange(0, old(readings)@.len() as int) == old(readings)@,
        final(readings)@.last().slot == enc.slot,
        final(readings)@.last().serial == enc.serial,
        final(readings)@.last().description == m.description,
        final(readings)@.last().index == m.index,
        final(readings)@.last().speed as int == fan_detail_speed(detail_lines.deep_view()),
        final(readings)@.last().comment@ == fan_detail_comment(detail_lines.deep_view()),
        !fan_pair_fresh(final(readings)@, m.index@, enc.serial@),
        fan_pairs_unique(old(readings)@) ==> fan_pairs_unique(final(readings)@),
{
    let (speed, comment) = parse_fan_detail(detail_lines);
    let reading = EnclosureFan {
        slot: enc.slot.clone(),
        serial: enc.serial.clone(),
        description: m.description.clone(),
        index: m.index.clone(),
        speed,
        comment,
    };
    proof {
        if fan_pairs_unique(readings@) {
            lemma_fan_dedup_push(readings@, reading);
        }
    }
    readings.push(reading);
    proof {
        assert(readings@.subrange(0, old(readings)@.len() as int) =~= old(readings)@);
        assert(readings@.last() == reading);
    }
}

/// No reading in `s` already carries this (index, serial) pair.
pub open spec fn temp_pair_fresh(
    s: Seq<EnclosureTemperatureSensor>,
    index: Seq<char>,
    serial: Seq<char>,
) -> bool {
    forall|k: int|
        0 <= k < s.len() ==> !(#[trigger] s[k].index@ == index && s[k].serial@ == serial)
}

/// Every (index, serial) pair occurs at most once in `s`.
pub open spec fn temp_pairs_unique(s: Seq<EnclosureTemperatureSensor>) -> bool {
    forall|i: int, j: int|
        0 <= i < j < s.len() ==> !(#[trigger] s[i].index@ == #[trigger] s[j].index@
            && s[i].serial@ == s[j].serial@)
}

/// Law: the guarded push keeps the temperature catalogue free of
/// duplicate (index, serial) pairs.
pub proof fn lemma_temp_dedup_push(s: Seq<EnclosureTemperatureSensor>, r: EnclosureTemperatureSensor)
    requires
        temp_pairs_unique(s),
        temp_pair_fresh(s, r.index@, r.serial@),
    ensures
        temp_pairs_unique(s.push(r)),
{
    let t = s.push(r);
    assert forall|i: int, j: int| 0 <= i < j < t.len() implies !(t[i].index@ == t[j].index@
        && t[i].serial@ == t[j].serial@) by {
        if j == s.len() as int {
            assert(t[i] == s[i]);
        } else {
            assert(t[i] == s[i] && t[j] == s[j]);
        }
    }
}

pub fn temp_pair_present(
    readings: &Vec<EnclosureTemperatureSensor>,
    index: &str,
    serial: &str,
) -> (r: bool)
    ensures
        r == !temp_pair_fresh(readings@, index@, serial@),
{
    let mut k: usize = 0;
    while k < readings.len()
        invariant
            k <= readings.len(),
            forall|m: int|
                0 <= m < k ==> !(#[trigger] readings@[m].index@ == index@ && readings@[m].serial@
                    == serial@),
        decreases readings.len() - k,
    {
        let rd = &readings[k];
        if str_eq(rd.index.as_str(), index) && str_eq(rd.serial.as_str(), serial) {
            return true;
        }
        k = k + 1;
    }
    false
}

/// Applies the temperature pattern to one listing line; yields the
/// capture exactly when the line matches and the pair is new.
pub fn temp_line_match(
    readings: &Vec<EnclosureTemperatureSensor>,
    serial: &str,
    line: &str,
) -> (r: Option<LineMatch>)
    ensures
        r is Some <==> line_matches(line@, "Temperature"@) && temp_pair_fresh(
            readings@,
            match_index(line@, "Temperature"@),
            serial@,
        ),
        r is Some ==> (r->Some_0).description@ == match_description(line@, "Temperature"@),
        r is Some ==> (r->Some_0).index@ == match_index(line@, "Temperature"@),
{
    match match_class_line(SensorClass::Temperature, line) {
        None => None,
        Some(m) => {
            if temp_pair_present(readings, m.index.as_str(), serial) {
                None
            } else {
                Some(m)
            }
        },
    }
}

/// Appends the temperature reading for a fresh capture, with value and
/// status parsed from the detail-query output.
pub fn push_temp_reading(
    readings: &mut Vec<EnclosureTemperatureSensor>,
    enc: &Enclosure,
    m: &LineMatch,
    detail_lines: &Vec<String>,
)
    requires
        temp_pair_fresh(old(readings)@, m.index@, enc.serial@),
    ensures
        final(readings)@.len() == old(readings)@.len() + 1,
        final(readings)@.subrange(0, old(readings)@.len() as int) == old(readings)@,
        final(readings)@.last().slot == enc.slot,
        final(readings)@.last().serial == enc.serial,
        final(readings)@.last().description == m.description,
        final(readings)@.last().index == m.index,
        final(readings)@.last().temperature as int == temp_detail_value(detail_lines.deep_view()),
        final(readings)@.last().status@ == detail_status(detail_lines.deep_view()),
        !temp_pair_fresh(final(readings)@, m.index@, enc.serial@),
        temp_pairs_unique(old(readings)@) ==> temp_pairs_unique(final(readings)@),
{
    let (temperature, status) = parse_temp_detail(detail_lines);
    let reading = EnclosureTemperatureSensor {
        slot: enc.slot.clone(),
        serial: enc.serial.clone(),
        description: m.description.clone(),
        index: m.index.clone(),
        temperature,
        status,
    };
    proof {
        if temp_pairs_unique(readings@) {
            lemma_temp_dedup_push(readings@, reading);
        }
    }
    readings.push(reading);
    proof {
        assert(readings@.subrange(0, old(readings)@.len() as int) =~= old(readings)@);
        assert(readings@.last() == reading);
    }
}

/// No reading in `s` already carries this (index, serial) pair.
pub open spec fn volt_pair_fresh(
    s: Seq<EnclosureVoltageSensor>,
    index: Seq<char>,
    serial: Seq<char>,
) -> bool {
    forall|k: int|
        0 <= k < s.len() ==> !(#[trigger] s[k].index@ == index && s[k].serial@ == serial)
}

/// Every (index, serial) pair occurs at most once in `s`.
pub open spec fn volt_pairs_unique(s: Seq<EnclosureVoltageSensor>) -> bool {
    forall|i: int, j: int|
        0 <= i < j < s.len() ==> !(#[trigger] s[i].index@ == #[trigger] s[j].index@
            && s[i].serial@ == s[j].serial@)
}

/// Law: the guarded push keeps the voltage catalogue free of duplicate
/// (index, serial) pairs.
pub proof fn lemma_volt_dedup_push(s: Seq<EnclosureVoltageSensor>, r: EnclosureVoltageSensor)
    requires
        volt_pairs_unique(s),
        volt_pair_fresh(s, r.index@, r.serial@),
    ensures
        volt_pairs_unique(s.push(r)),
{
    let t = s.push(r);
    assert forall|i: int, j: int| 0 <= i < j < t.len() implies !(t[i].index@ == t[j].index@
        && t[i].serial@ == t[j].serial@) by {
        if j == s.len() as int {
            assert(t[i] == s[i]);
        } else {
            assert(t[i] == s[i] && t[j] == s[j]);
        }
    }
}

pub fn volt_pair_present(
    readings: &Vec<EnclosureVoltageSensor>,
    index: &str,
    serial: &str,
) -> (r: bool)
    ensures
        r == !volt_pair_fresh(readings@, index@, serial@),
{
    let mut k: usize = 0;
    while k < readings.len()
        invariant
            k <= readings.len(),
            forall|m: int|
                0 <= m < k ==> !(#[trigger] readings@[m].index@ == index@ && readings@[m].serial@
                    == serial@),
        decreases readings.len() - k,
    {
        let rd = &readings[k];
        if str_eq(rd.index.as_str(), index) && str_eq(rd.serial.as_str(), serial) {
            return true;
        }
        k = k + 1;
    }
    false
}

/// Applies the voltage pattern to one listing line; yields the capture
/// exactly when the line matches and the pair is new.
pub fn volt_line_match(readings: &Vec<EnclosureVoltageSensor>, serial: &str, line: &str) -> (r:
    Option<LineMatch>)
    ensures
        r is Some <==> line_matches(line@, "Voltage"@) && volt_pair_fresh(
            readings@,
            match_index(line@, "Voltage"@),
            serial@,
        ),
        r is Some ==> (r->Some_0).description@ == match_description(line@, "Voltage"@),
        r is Some ==> (r->Some_0).index@ == match_index(line@, "Voltage"@),
{
    match match_class_line(SensorClass::Voltage, line) {
        None => None,
        Some(m) => {
            if volt_pair_present(readings, m.index.as_str(), serial) {
                None
            } else {
                Some(m)
            }
        },
    }
}

/// Appends the voltage reading for a fresh capture.  A malformed
/// voltage in the detail output is a hard error for this one reading:
/// the catalogue is left unchanged and the caller may log and continue
/// with the rest of the pass.
pub fn push_volt_reading(
    readings: &mut Vec<EnclosureVoltageSensor>,
    enc: &Enclosure,
    m: &LineMatch,
    detail_lines: &Vec<String>,
) -> (r: Result<(), ParseError>)
    requires
        volt_pair_fresh(old(readings)@, m.index@, enc.serial@),
    ensures
        r is Ok <==> voltage_detail(detail_lines.deep_view()) is Some,
        r is Err ==> final(readings)@ == old(readings)@,
        r is Ok ==> final(readings)@.len() == old(readings)@.len() + 1,
        r is Ok ==> final(readings)@.subrange(0, old(readings)@.len() as int) == old(readings)@,
        r is Ok ==> final(readings)@.last().slot == enc.slot,
        r is Ok ==> final(readings)@.last().serial == enc.serial,
        r is Ok ==> final(readings)@.last().description == m.description,
        r is Ok ==> final(readings)@.last().index == m.index,
        r is Ok ==> final(readings)@.last().voltage.negative == (voltage_detail(
            detail_lines.deep_view(),
        )->Some_0).0,
        r is Ok ==> final(readings)@.last().voltage.int_digits@ == (voltage_detail(
            detail_lines.deep_view(),
        )->Some_0).1,
        r is Ok ==> final(readings)@.last().voltage.frac_digits@ == (voltage_detail(
            detail_lines.deep_view(),
        )->Some_0).2,
        r is Ok ==> final(readings)@.last().voltage.wf(),
        r is Ok ==> final(readings)@.last().status@ == detail_status(detail_lines.deep_view()),
        r is Ok ==> !volt_pair_fresh(final(readings)@, m.index@, enc.serial@),
        r is Ok ==> (volt_pairs_unique(old(readings)@) ==> volt_pairs_unique(final(readings)@)),
{
    match parse_voltage_detail(detail_lines) {
        Err(e) => Err(e),
        Ok((voltage, status)) => {
            let reading = EnclosureVoltageSensor {
                slot: enc.slot.clone(),
                serial: enc.serial.clone(),
                description: m.description.clone(),
                index: m.index.clone(),
                voltage,
                status,
            };
            proof {
                if volt_pairs_unique(readings@) {
                    lemma_volt_dedup_push(readings@, reading);
                }
            }
            readings.push(reading);
            proof {
                assert(readings@.subrange(0, old(readings)@.len() as int) =~= old(readings)@);
                assert(readings@.last() == reading);
            }
            Ok(())
        },
    }
}

} // verus!
