//! Numeric value extraction from noisy text fragments.
//!
//! The detail queries of the enclosure tools bury their numbers in free
//! text ("speed: 7200 rpm").  The integer extractor scans for the first
//! maximal run of decimal digits and never fails: a fragment without a
//! digit is reported as absent, and callers substitute their documented
//! default.  The float extractor, by contrast, parses a whole token
//! strictly as a plain decimal literal and reports an error on anything
//! else, because a malformed voltage has no safe default.

use vstd::prelude::*;
use vstd::string::StrSliceExecFns;
use vstd::string::StringExecFns;

use crate::scan::digit_value;
use crate::scan::find_char;
use crate::scan::find_char_at;
use crate::scan::is_digit_char;
use crate::scan::char_is_digit;

verus! {

/// Index of the first digit at or after `from`; `s.len()` when there is
/// none.
pub open spec fn skip_to_digit(s: Seq<char>, from: int) -> int
    recommends
        0 <= from <= s.len(),
    decreases s.len() - from,
{
    if from >= s.len() {
        s.len() as int
    } else if is_digit_char(s[from]) {
        from
    } else {
        skip_to_digit(s, from + 1)
    }
}

/// Index of the first non-digit at or after `from`; `s.len()` when the
/// rest is all digits.
pub open spec fn digit_run_end(s: Seq<char>, from: int) -> int
    recommends
        0 <= from <= s.len(),
    decreases s.len() - from,
{
    if from >= s.len() {
        s.len() as int
    } else if !is_digit_char(s[from]) {
        from
    } else {
        digit_run_end(s, from + 1)
    }
}

/// The number written by the digit run `s[i..j]`, most significant digit
/// first.
pub open spec fn run_value(s: Seq<char>, i: int, j: int) -> int
    decreases j - i,
{
    if j <= i {
        0
    } else {
        run_value(s, i, j - 1) * 10 + digit_value(s[j - 1])
    }
}

/// The first maximal digit run of `s` as a number; `None` when `s` holds
/// no digit at all.
pub open spec fn first_integer(s: Seq<char>) -> Option<int> {
    let a = skip_to_digit(s, 0);
    if a == s.len() {
        None
    } else {
        Some(run_value(s, a, digit_run_end(s, a)))
    }
}

/// `v` clamped to the largest `i64`.
pub open spec fn clip_i64(v: int) -> int {
    if v > i64::MAX {
        i64::MAX as int
    } else {
        v
    }
}

/// Scans `text` left to right, skips everything up to the first decimal
/// digit, and accumulates the maximal digit run that starts there.
/// Returns `None` when no digit occurs.  A run too large for an `i64` is
/// clamped to `i64::MAX`.
pub fn extract_first_integer(text: &str) -> (r: Option<i64>)
    ensures
        match r {
            None => first_integer(text@) is None,
            Some(v) => first_integer(text@) is Some && v as int == clip_i64(
                first_integer(text@)->Some_0,
            ),
        },
{
    let n: usize = text.unicode_len();
    let mut a: usize = 0;
    while a < n
        invariant
            a <= n,
            n == text@.len(),
            skip_to_digit(text@, 0) == skip_to_digit(text@, a as int),
        ensures
            a <= n,
            a as int == skip_to_digit(text@, 0),
        decreases n - a,
    {
        if char_is_digit(text.get_char(a)) {
            break ;
        }
        a = a + 1;
    }
    if a == n {
        return None;
    }
    let mut j: usize = a;
    let mut acc: i64 = 0;
    while j < n
        invariant
            a <= j <= n,
            n == text@.len(),
            digit_run_end(text@, a as int) == digit_run_end(text@, j as int),
            acc as int == clip_i64(run_value(text@, a as int, j as int)),
            acc >= 0,
        ensures
            j as int == digit_run_end(text@, a as int),
            acc as int == clip_i64(run_value(text@, a as int, j as int)),
        decreases n - j,
    {
        let c = text.get_char(j);
        if !char_is_digit(c) {
            break ;
        }
        let d: i64 = ((c as u32) - 48) as i64;
        proof {
            assert(run_value(text@, a as int, j as int + 1) == run_value(
                text@,
                a as int,
                j as int,
            ) * 10 + d);
            assert(10 * ((i64::MAX - d) / 10) <= i64::MAX - d);
            assert(10 * ((i64::MAX - d) / 10) >= i64::MAX - d - 9);
        }
        if acc <= (i64::MAX - d) / 10 {
            acc = acc * 10 + d;
        } else {
            acc = i64::MAX;
        }
        j = j + 1;
    }
    Some(acc)
}

/// True when every character of `s` is an ASCII decimal digit.
pub open spec fn all_digit_chars(s: Seq<char>) -> bool {
    forall|i: int| 0 <= i < s.len() ==> is_digit_char(s[i])
}

/// Whether `c` counts as numeric to `char::is_numeric`: membership in
/// one of Unicode's numeric character categories, a property of the
/// character alone that would take the Unicode tables to write out.
pub uninterp spec fn is_numeric_char(c: char) -> bool;

/// Relies on char::is_numeric: whether the character belongs to a
/// Unicode numeric category, a function of the character alone.
#[verifier::external_body]
fn char_is_numeric(c: char) -> (r: bool)
    ensures
        r == is_numeric_char(c),
{
    c.is_numeric()
}

/// True when every character of `s` is numeric in Unicode's sense.
pub open spec fn all_numeric_chars(s: Seq<char>) -> bool {
    forall|i: int| 0 <= i < s.len() ==> is_numeric_char(s[i])
}

/// True when every character of `s` is numeric (a Unicode numeric
/// character, ASCII digits included).  The empty string counts as
/// numeric, as there is no character that breaks the rule.
pub fn is_string_numeric(s: String) -> (r: bool)
    ensures
        r == all_numeric_chars(s@),
{
    let t = s.as_str();
    let n: usize = t.unicode_len();
    let mut i: usize = 0;
    while i < n
        invariant
            i <= n,
            n == t@.len(),
            t@ == s@,
            forall|k: int| 0 <= k < i ==> is_numeric_char(t@[k]),
        decreases n - i,
    {
        if !char_is_numeric(t.get_char(i)) {
            return false;
        }
        i = i + 1;
    }
    true
}

pub fn digits_in_range(s: &str, i: usize, j: usize) -> (r: bool)
    requires
        i <= j <= s@.len(),
    ensures
        r == all_digit_chars(s@.subrange(i as int, j as int)),
{
    let mut k: usize = i;
    while k < j
        invariant
            i <= k <= j,
            j <= s@.len(),
            forall|m: int| i <= m < k ==> is_digit_char(s@[m]),
        decreases j - k,
    {
        if !char_is_digit(s.get_char(k)) {
            proof {
                assert(s@.subrange(i as int, j as int)[k as int - i as int] == s@[k as int]);
            }
            return false;
        }
        k = k + 1;
    }
    proof {
        assert forall|m: int| 0 <= m < j - i implies is_digit_char(
            s@.subrange(i as int, j as int)[m],
        ) by {
            assert(s@.subrange(i as int, j as int)[m] == s@[i + m]);
        }
    }
    true
}

/// The token with a single leading `+` or `-` removed.
pub open spec fn decimal_body(t: Seq<char>) -> Seq<char> {
    if t.len() > 0 && (t[0] == '+' || t[0] == '-') {
        t.subrange(1, t.len() as int)
    } else {
        t
    }
}

/// Position of the decimal point in the body; the body length when there
/// is none.
pub open spec fn decimal_dot(b: Seq<char>) -> int {
    find_char(b, 0, '.')
}

/// A plain decimal floating-point literal: an optional sign, then decimal
/// digits with at most one point somewhere among them, and at least one
/// digit in all.
pub open spec fn is_decimal_literal(t: Seq<char>) -> bool {
    let b = decimal_body(t);
    let d = decimal_dot(b);
    &&& b.len() >= 1
    &&& all_digit_chars(b.subrange(0, d))
    &&& (d == b.len() || all_digit_chars(b.subrange(d + 1, b.len() as int)))
    &&& (d < b.len() ==> b.len() >= 2)
}

pub open spec fn decimal_negative(t: Seq<char>) -> bool {
    t.len() > 0 && t[0] == '-'
}

pub open spec fn decimal_int_digits(t: Seq<char>) -> Seq<char> {
    let b = decimal_body(t);
    b.subrange(0, decimal_dot(b))
}

pub open spec fn decimal_frac_digits(t: Seq<char>) -> Seq<char> {
    let b = decimal_body(t);
    let d = decimal_dot(b);
    if d == b.len() {
        Seq::empty()
    } else {
        b.subrange(d + 1, b.len() as int)
    }
}

/// A decimal number kept exactly, as its parts: sign, digits before the
/// point and digits after it.  This is how the engine carries a voltage,
/// which it never does arithmetic on.
#[derive(Debug)]
pub struct Decimal {
    pub negative: bool,
    pub int_digits: String,
    pub frac_digits: String,
}

/// Error of the strict float extractor: the token is not a plain decimal
/// literal.
#[derive(Debug, PartialEq, Eq)]
pub struct ParseError;

impl Decimal {
    pub open spec fn wf(&self) -> bool {
        &&& all_digit_chars(self.int_digits@)
        &&& all_digit_chars(self.frac_digits@)
        &&& self.int_digits@.len() + self.frac_digits@.len() >= 1
    }

    /// The canonical text of the number: sign, integer digits (`0` when
    /// there are none), and the fraction after a point when present.
    pub open spec fn text_spec(&self) -> Seq<char> {
        (if self.negative {
            seq!['-']
        } else {
            Seq::<char>::empty()
        }) + (if self.int_digits@.len() == 0 {
            seq!['0']
        } else {
            self.int_digits@
        }) + (if self.frac_digits@.len() == 0 {
            Seq::<char>::empty()
        } else {
            seq!['.'] + self.frac_digits@
        })
    }

    pub fn to_text(&self) -> (r: String)
        ensures
            r@ == self.text_spec(),
    {
        let mut out = String::new();
        if self.negative {
            out.append("-");
            proof {
                reveal_strlit("-");
                assert("-"@ =~= seq!['-']);
            }
        }
        if self.int_digits.as_str().unicode_len() == 0 {
            out.append("0");
            proof {
                reveal_strlit("0");
                assert("0"@ =~= seq!['0']);
            }
        } else {
            out.append(self.int_digits.as_str());
        }
        if self.frac_digits.as_str().unicode_len() > 0 {
            out.append(".");
            proof {
                reveal_strlit(".");
                assert("."@ =~= seq!['.']);
            }
            out.append(self.frac_digits.as_str());
        }
        proof {
            assert(out@ =~= self.text_spec());
        }
        out
    }
}

/// Parses a whitespace-free token strictly as a decimal floating-point
/// literal.  Succeeds exactly on an optional sign followed by digits with
/// at most one point; anything else is a `ParseError`.
pub fn extract_float(token: &str) -> (r: Result<Decimal, ParseError>)
    ensures
        r is Ok <==> is_decimal_literal(token@),
        r is Ok ==> (r->Ok_0).negative == decimal_negative(token@),
        r is Ok ==> (r->Ok_0).int_digits@ == decimal_int_digits(token@),
        r is Ok ==> (r->Ok_0).frac_digits@ == decimal_frac_digits(token@),
        r is Ok ==> (r->Ok_0).wf(),
{
    let n: usize = token.unicode_len();
    let mut start: usize = 0;
    let mut negative: bool = false;
    if n > 0 {
        let c0 = token.get_char(0);
        if c0 == '+' || c0 == '-' {
            start = 1;
            negative = c0 == '-';
        }
    }
    let b = token.substring_char(start, n);
    proof {
        if start == 0 {
            assert(token@.subrange(0, n as int) =~= token@);
        }
        assert(b@ == decimal_body(token@));
    }
    let blen: usize = b.unicode_len();
    if blen == 0 {
        return Err(ParseError);
    }
    let d: usize = find_char_at(b, 0, '.');
    if !digits_in_range(b, 0, d) {
        return Err(ParseError);
    }
    if d < blen {
        if blen < 2 {
            return Err(ParseError);
        }
        if !digits_in_range(b, d + 1, blen) {
            return Err(ParseError);
        }
    }
    let int_digits = String::from_str(b.substring_char(0, d));
    let frac_digits = if d == blen {
        String::new()
    } else {
        String::from_str(b.substring_char(d + 1, blen))
    };
    proof {
        assert(Seq::<char>::empty() =~= decimal_frac_digits(token@) || d < blen);
    }
    Ok(Decimal { negative, int_digits, frac_digits })
}

} // verus!
