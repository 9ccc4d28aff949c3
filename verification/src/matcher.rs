//! Sensor-line matching.
//!
//! A sensor listing is a page dump in which the interesting lines carry a
//! bracketed composite index — two signed integers such as `[2,-1]` — and
//! mention the sensor class further right, as in
//! `        Fan block   [2,-1]   Cooling mechanism`.
//! A line matches when it holds such a bracketed token with the class
//! keyword somewhere after it; the capture is the trimmed text before the
//! earliest such token (the description) and the text inside the brackets
//! (the composite index, kept opaque).  Lines of any other shape are
//! silently skipped.

use vstd::prelude::*;
use vstd::string::StrSliceExecFns;
use vstd::string::StringExecFns;

use crate::extract::all_digit_chars;
use crate::extract::digits_in_range;
use crate::scan::contains_sub;
use crate::scan::find_char;
use crate::scan::find_char_at;
use crate::scan::str_contains;
use crate::scan::trim_spec;
use crate::scan::trim_str;

verus! {

/// The three sensor classes, each with its own keyword in tool output.
#[derive(Clone, Copy, Debug)]
pub enum SensorClass {
    Fan,
    Temperature,
    Voltage,
}

pub open spec fn class_keyword_spec(c: SensorClass) -> Seq<char> {
    match c {
        SensorClass::Fan => "Cooling"@,
        SensorClass::Temperature => "Temperature"@,
        SensorClass::Voltage => "Voltage"@,
    }
}

impl SensorClass {
    pub fn keyword(&self) -> (r: &'static str)
        ensures
            r@ == class_keyword_spec(*self),
    {
        match self {
            SensorClass::Fan => "Cooling",
            SensorClass::Temperature => "Temperature",
            SensorClass::Voltage => "Voltage",
        }
    }
}

/// A signed decimal integer: an optional leading minus, then one or more
/// digits.
pub open spec fn is_signed_int_str(s: Seq<char>) -> bool {
    if s.len() == 0 {
        false
    } else if s[0] == '-' {
        s.len() >= 2 && all_digit_chars(s.subrange(1, s.len() as int))
    } else {
        all_digit_chars(s)
    }
}

fn signed_int_ok(t: &str) -> (r: bool)
    ensures
        r == is_signed_int_str(t@),
{
    let n: usize = t.unicode_len();
    if n == 0 {
        return false;
    }
    if t.get_char(0) == '-' {
        n >= 2 && digits_in_range(t, 1, n)
    } else {
        let r = digits_in_range(t, 0, n);
        proof {
            assert(t@.subrange(0, n as int) =~= t@);
        }
        r
    }
}

/// A composite index: two signed integers joined by a comma, `2,-1` say.
/// The comma that splits them is necessarily the first one, because a
/// signed integer holds no comma itself.
pub open spec fn is_composite_index_str(s: Seq<char>) -> bool {
    let k = find_char(s, 0, ',');
    &&& k < s.len()
    &&& is_signed_int_str(s.subrange(0, k))
    &&& is_signed_int_str(s.subrange(k + 1, s.len() as int))
}

fn composite_index_ok(t: &str) -> (r: bool)
    ensures
        r == is_composite_index_str(t@),
{
    let n: usize = t.unicode_len();
    let k: usize = find_char_at(t, 0, ',');
    if k == n {
        return false;
    }
    let left = t.substring_char(0, k);
    let right = t.substring_char(k + 1, n);
    signed_int_ok(left) && signed_int_ok(right)
}

/// True when position `b` of `s` opens a bracketed composite index whose
/// closing bracket is followed, somewhere to the right, by the keyword.
pub open spec fn bracket_candidate(s: Seq<char>, kw: Seq<char>, b: int) -> bool {
    &&& 0 <= b < s.len()
    &&& s[b] == '['
    &&& find_char(s, b + 1, ']') < s.len()
    &&& is_composite_index_str(s.subrange(b + 1, find_char(s, b + 1, ']')))
    &&& contains_sub(s.subrange(find_char(s, b + 1, ']') + 1, s.len() as int), kw)
}

/// Position of the leftmost bracket candidate at or after `from`;
/// `s.len()` when the line has none.
pub open spec fn first_candidate(s: Seq<char>, kw: Seq<char>, from: int) -> int
    recommends
        0 <= from <= s.len(),
    decreases s.len() - from,
{
    if from >= s.len() {
        s.len() as int
    } else if bracket_candidate(s, kw, from) {
        from
    } else {
        first_candidate(s, kw, from + 1)
    }
}

pub open spec fn line_matches(s: Seq<char>, kw: Seq<char>) -> bool {
    first_candidate(s, kw, 0) < s.len()
}

/// The trimmed text before the leftmost matching bracket.
pub open spec fn match_description(s: Seq<char>, kw: Seq<char>) -> Seq<char> {
    trim_spec(s.subrange(0, first_candidate(s, kw, 0)))
}

/// The composite index inside the leftmost matching bracket.
pub open spec fn match_index(s: Seq<char>, kw: Seq<char>) -> Seq<char> {
    let b = first_candidate(s, kw, 0);
    s.subrange(b + 1, find_char(s, b + 1, ']'))
}

/// One capture of the matcher: the component description and the opaque
/// composite index used to address the sensor element.
#[derive(Debug)]
pub struct LineMatch {
    pub description: String,
    pub index: String,
}

fn candidate_at(line: &str, kw: &str, b: usize) -> (r: bool)
    requires
        b < line@.len(),
    ensures
        r == bracket_candidate(line@, kw@, b as int),
{
    if line.get_char(b) != '[' {
        return false;
    }
    let n: usize = line.unicode_len();
    let e: usize = find_char_at(line, b + 1, ']');
    if e == n {
        return false;
    }
    let body = line.substring_char(b + 1, e);
    if !composite_index_ok(body) {
        return false;
    }
    let rest = line.substring_char(e + 1, n);
    str_contains(rest, kw)
}

/// Applies the class pattern to one raw output line.  Yields the
/// description and composite index of the leftmost bracketed index token
/// that has the keyword after it, or `None` for a line of any other
/// shape.
pub fn match_sensor_line(line: &str, keyword: &str) -> (r: Option<LineMatch>)
    ensures
        r is Some <==> line_matches(line@, keyword@),
        r is Some ==> (r->Some_0).description@ == match_description(line@, keyword@),
        r is Some ==> (r->Some_0).index@ == match_index(line@, keyword@),
{
    let n: usize = line.unicode_len();
    let mut b: usize = 0;
    while b < n
        invariant
            b <= n,
            n == line@.len(),
            first_candidate(line@, keyword@, 0) == first_candidate(line@, keyword@, b as int),
        ensures
            b <= n,
            b as int == first_candidate(line@, keyword@, 0),
            b < n ==> bracket_candidate(line@, keyword@, b as int),
        decreases n - b,
    {
        if candidate_at(line, keyword, b) {
            break ;
        }
        b = b + 1;
    }
    if b == n {
        return None;
    }
    let e: usize = find_char_at(line, b + 1, ']');
    let desc = trim_str(line.substring_char(0, b));
    let description = String::from_str(desc);
    let index = String::from_str(line.substring_char(b + 1, e));
    Some(LineMatch { description, index })
}

/// The matcher specialised to one sensor class.
pub fn match_class_line(class: SensorClass, line: &str) -> (r: Option<LineMatch>)
    ensures
        r is Some <==> line_matches(line@, class_keyword_spec(class)),
        r is Some ==> (r->Some_0).description@ == match_description(
            line@,
            class_keyword_spec(class),
        ),
        r is Some ==> (r->Some_0).index@ == match_index(line@, class_keyword_spec(class)),
{
    match_sensor_line(line, class.keyword())
}

} // verus!
