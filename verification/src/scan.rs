//! Character-level scanning primitives shared by the parsers.
//!
//! The enclosure tools emit free-form text, so everything in this crate is
//! built from a handful of scanning operations: finding a character or a
//! substring, skipping runs, trimming whitespace, and cutting fields out of
//! a line.  Each executable function here is proved against an index-level
//! specification of the same scan.

use vstd::prelude::*;
use vstd::string::StrSliceExecFns;
use vstd::string::StringExecFns;

verus! {

/// True when `c` is an ASCII decimal digit.
pub open spec fn is_digit_char(c: char) -> bool {
    48 <= c as u32 && c as u32 <= 57
}

/// The whitespace characters the scanners recognise: space, tab, carriage
/// return and line feed.
pub open spec fn is_space_char(c: char) -> bool {
    c == ' ' || c == '\t' || c == '\r' || c == '\n'
}

/// Numeric value of an ASCII digit.
pub open spec fn digit_value(c: char) -> int {
    c as u32 - 48
}

pub fn char_is_digit(c: char) -> (r: bool)
    ensures
        r == is_digit_char(c),
{
    let u: u32 = c as u32;
    48 <= u && u <= 57
}

pub fn char_is_space(c: char) -> (r: bool)
    ensures
        r == is_space_char(c),
{
    c == ' ' || c == '\t' || c == '\r' || c == '\n'
}

/// Index of the first occurrence of `c` at or after `from`; `s.len()` when
/// there is none.
pub open spec fn find_char(s: Seq<char>, from: int, c: char) -> int
    recommends
        0 <= from <= s.len(),
    decreases s.len() - from,
{
    if from >= s.len() {
        s.len() as int
    } else if s[from] == c {
        from
    } else {
        find_char(s, from + 1, c)
    }
}

pub proof fn lemma_find_char(s: Seq<char>, from: int, c: char)
    requires
        0 <= from <= s.len(),
    ensures
        from <= find_char(s, from, c) <= s.len(),
        find_char(s, from, c) < s.len() ==> s[find_char(s, from, c)] == c,
        forall|k: int| from <= k < find_char(s, from, c) ==> s[k] != c,
    decreases s.len() - from,
{
    if from < s.len() && s[from] != c {
        lemma_find_char(s, from + 1, c);
    }
}

pub fn find_char_at(s: &str, from: usize, c: char) -> (r: usize)
    requires
        from <= s@.len(),
    ensures
        r as int == find_char(s@, from as int, c),
        from <= r <= s@.len(),
{
    proof {
        lemma_find_char(s@, from as int, c);
    }
    let n: usize = s.unicode_len();
    let mut i: usize = from;
    while i < n
        invariant
            from <= i <= n,
            n == s@.len(),
            find_char(s@, from as int, c) == find_char(s@, i as int, c),
        decreases n - i,
    {
        if s.get_char(i) == c {
            return i;
        }
        i = i + 1;
    }
    i
}

/// Index of the first position at or after `from` whose character differs
/// from `c`; `s.len()` when the rest is a run of `c`.
pub open spec fn skip_char(s: Seq<char>, from: int, c: char) -> int
    recommends
        0 <= from <= s.len(),
    decreases s.len() - from,
{
    if from >= s.len() {
        s.len() as int
    } else if s[from] != c {
        from
    } else {
        skip_char(s, from + 1, c)
    }
}

pub proof fn lemma_skip_char(s: Seq<char>, from: int, c: char)
    requires
        0 <= from <= s.len(),
    ensures
        from <= skip_char(s, from, c) <= s.len(),
        skip_char(s, from, c) < s.len() ==> s[skip_char(s, from, c)] != c,
        forall|k: int| from <= k < skip_char(s, from, c) ==> s[k] == c,
    decreases s.len() - from,
{
    if from < s.len() && s[from] == c {
        lemma_skip_char(s, from + 1, c);
    }
}

pub fn skip_char_at(s: &str, from: usize, c: char) -> (r: usize)
    requires
        from <= s@.len(),
    ensures
        r as int == skip_char(s@, from as int, c),
        from <= r <= s@.len(),
{
    proof {
        lemma_skip_char(s@, from as int, c);
    }
    let n: usize = s.unicode_len();
    let mut i: usize = from;
    while i < n
        invariant
            from <= i <= n,
            n == s@.len(),
            skip_char(s@, from as int, c) == skip_char(s@, i as int, c),
        decreases n - i,
    {
        if s.get_char(i) != c {
            return i;
        }
        i = i + 1;
    }
    i
}

/// Index of the first position at or after `from` whose character is not a
/// whitespace character; `s.len()` when the rest is all whitespace.
pub open spec fn skip_space(s: Seq<char>, from: int) -> int
    recommends
        0 <= from <= s.len(),
    decreases s.len() - from,
{
    if from >= s.len() {
        s.len() as int
    } else if !is_space_char(s[from]) {
        from
    } else {
        skip_space(s, from + 1)
    }
}

pub proof fn lemma_skip_space(s: Seq<char>, from: int)
    requires
        0 <= from <= s.len(),
    ensures
        from <= skip_space(s, from) <= s.len(),
        skip_space(s, from) < s.len() ==> !is_space_char(s[skip_space(s, from)]),
        forall|k: int| from <= k < skip_space(s, from) ==> is_space_char(s[k]),
    decreases s.len() - from,
{
    if from < s.len() && is_space_char(s[from]) {
        lemma_skip_space(s, from + 1);
    }
}

pub fn skip_space_at(s: &str, from: usize) -> (r: usize)
    requires
        from <= s@.len(),
    ensures
        r as int == skip_space(s@, from as int),
        from <= r <= s@.len(),
{
    proof {
        lemma_skip_space(s@, from as int);
    }
    let n: usize = s.unicode_len();
    let mut i: usize = from;
    while i < n
        invariant
            from <= i <= n,
            n == s@.len(),
            skip_space(s@, from as int) == skip_space(s@, i as int),
        decreases n - i,
    {
        if !char_is_space(s.get_char(i)) {
            return i;
        }
        i = i + 1;
    }
    i
}

/// Index of the first whitespace character at or after `from`; `s.len()`
/// when there is none.
pub open spec fn find_space(s: Seq<char>, from: int) -> int
    recommends
        0 <= from <= s.len(),
    decreases s.len() - from,
{
    if from >= s.len() {
        s.len() as int
    } else if is_space_char(s[from]) {
        from
    } else {
        find_space(s, from + 1)
    }
}

pub proof fn lemma_find_space(s: Seq<char>, from: int)
    requires
        0 <= from <= s.len(),
    ensures
        from <= find_space(s, from) <= s.len(),
        find_space(s, from) < s.len() ==> is_space_char(s[find_space(s, from)]),
        forall|k: int| from <= k < find_space(s, from) ==> !is_space_char(s[k]),
    decreases s.len() - from,
{
    if from < s.len() && !is_space_char(s[from]) {
        lemma_find_space(s, from + 1);
    }
}

pub fn find_space_at(s: &str, from: usize) -> (r: usize)
    requires
        from <= s@.len(),
    ensures
        r as int == find_space(s@, from as int),
        from <= r <= s@.len(),
{
    proof {
        lemma_find_space(s@, from as int);
    }
    let n: usize = s.unicode_len();
    let mut i: usize = from;
    while i < n
        invariant
            from <= i <= n,
            n == s@.len(),
            find_space(s@, from as int) == find_space(s@, i as int),
        decreases n - i,
    {
        if char_is_space(s.get_char(i)) {
            return i;
        }
        i = i + 1;
    }
    i
}

pub fn str_eq(a: &str, b: &str) -> (r: bool)
    ensures
        r == (a@ == b@),
{
    let alen: usize = a.unicode_len();
    let blen: usize = b.unicode_len();
    if alen != blen {
        return false;
    }
    let mut i: usize = 0;
    while i < alen
        invariant
            i <= alen,
            alen == a@.len(),
            alen == b@.len(),
            forall|k: int| 0 <= k < i ==> a@[k] == b@[k],
        decreases alen - i,
    {
        if a.get_char(i) != b.get_char(i) {
            return false;
        }
        i = i + 1;
    }
    proof {
        assert(a@ =~= b@);
    }
    true
}

/// True when `p` occurs in `s` starting exactly at index `i`.
pub open spec fn has_sub_at(s: Seq<char>, p: Seq<char>, i: int) -> bool {
    0 <= i && i + p.len() <= s.len() && s.subrange(i, i + p.len() as int) == p
}

/// True when `p` occurs somewhere in `s`.
pub open spec fn contains_sub(s: Seq<char>, p: Seq<char>) -> bool {
    exists|i: int| has_sub_at(s, p, i)
}

pub fn sub_match_at(s: &str, i: usize, p: &str) -> (r: bool)
    requires
        i + p@.len() <= s@.len(),
    ensures
        r == (s@.subrange(i as int, i as int + p@.len() as int) == p@),
{
    let n: usize = s.unicode_len();
    let plen: usize = p.unicode_len();
    let mut k: usize = 0;
    while k < plen
        invariant
            k <= plen,
            plen == p@.len(),
            n == s@.len(),
            i + plen <= s@.len(),
            forall|m: int| 0 <= m < k ==> s@[i + m] == p@[m],
        decreases plen - k,
    {
        if s.get_char(i + k) != p.get_char(k) {
            proof {
                assert(s@.subrange(i as int, i as int + p@.len() as int)[k as int] == s@[
                    i as int + k as int
                ]);
            }
            return false;
        }
        k = k + 1;
    }
    proof {
        assert(s@.subrange(i as int, i as int + p@.len() as int) =~= p@);
    }
    true
}

/// Index of the first occurrence of `p` in `s` at or after `from`;
/// `s.len()` when there is none.
pub open spec fn find_sub_from(s: Seq<char>, p: Seq<char>, from: int) -> int
    recommends
        0 <= from <= s.len(),
    decreases s.len() - from,
{
    if from < 0 || from >= s.len() || from + p.len() > s.len() {
        s.len() as int
    } else if s.subrange(from, from + p.len() as int) == p {
        from
    } else {
        find_sub_from(s, p, from + 1)
    }
}

pub proof fn lemma_find_sub(s: Seq<char>, p: Seq<char>, from: int)
    requires
        0 <= from <= s.len(),
        p.len() >= 1,
    ensures
        from <= find_sub_from(s, p, from) <= s.len(),
        find_sub_from(s, p, from) < s.len() ==> has_sub_at(s, p, find_sub_from(s, p, from)),
        forall|i: int| from <= i < find_sub_from(s, p, from) ==> !has_sub_at(s, p, i),
        find_sub_from(s, p, from) == s.len() ==> forall|i: int|
            from <= i ==> !has_sub_at(s, p, i),
    decreases s.len() - from,
{
    if from + p.len() > s.len() {
    } else if s.subrange(from, from + p.len() as int) != p {
        lemma_find_sub(s, p, from + 1);
    }
}

pub fn find_sub_at(s: &str, from: usize, p: &str) -> (r: usize)
    requires
        from <= s@.len(),
        p@.len() >= 1,
    ensures
        r as int == find_sub_from(s@, p@, from as int),
        from <= r <= s@.len(),
{
    let n: usize = s.unicode_len();
    let plen: usize = p.unicode_len();
    if plen > n - from {
        proof {
            assert(find_sub_from(s@, p@, from as int) == s@.len());
        }
        return n;
    }
    let mut i: usize = from;
    while i <= n - plen
        invariant
            from <= i,
            i <= n,
            1 <= plen <= n,
            n == s@.len(),
            plen == p@.len(),
            find_sub_from(s@, p@, from as int) == find_sub_from(s@, p@, i as int),
        decreases n - i,
    {
        if sub_match_at(s, i, p) {
            return i;
        }
        i = i + 1;
    }
    n
}

pub fn str_contains(s: &str, p: &str) -> (r: bool)
    ensures
        r == contains_sub(s@, p@),
{
    if p.unicode_len() == 0 {
        proof {
            assert(s@.subrange(0, 0) =~= p@);
            assert(has_sub_at(s@, p@, 0));
        }
        return true;
    }
    proof {
        lemma_find_sub(s@, p@, 0);
    }
    let r: usize = find_sub_at(s, 0, p);
    let n: usize = s.unicode_len();
    if r < n {
        proof {
            assert(has_sub_at(s@, p@, r as int));
        }
        true
    } else {
        proof {
            assert(forall|i: int| !has_sub_at(s@, p@, i));
        }
        false
    }
}

/// True when `s` begins with `p`.
pub open spec fn starts_with_sub(s: Seq<char>, p: Seq<char>) -> bool {
    p.len() <= s.len() && s.subrange(0, p.len() as int) == p
}

pub fn str_starts_with(s: &str, p: &str) -> (r: bool)
    ensures
        r == starts_with_sub(s@, p@),
{
    let plen: usize = p.unicode_len();
    if plen > s.unicode_len() {
        false
    } else {
        sub_match_at(s, 0, p)
    }
}

/// One past the index of the last non-whitespace character of `s[..upto]`;
/// `0` when that whole prefix is whitespace.
pub open spec fn last_non_space(s: Seq<char>, upto: int) -> int
    recommends
        0 <= upto <= s.len(),
    decreases upto,
{
    if upto <= 0 {
        0
    } else if !is_space_char(s[upto - 1]) {
        upto
    } else {
        last_non_space(s, upto - 1)
    }
}

/// `s` with leading and trailing whitespace removed.
pub open spec fn trim_spec(s: Seq<char>) -> Seq<char> {
    let a = skip_space(s, 0);
    let b = last_non_space(s, s.len() as int);
    if a >= b {
        Seq::empty()
    } else {
        s.subrange(a, b)
    }
}

pub fn trim_str<'a>(s: &'a str) -> (r: &'a str)
    ensures
        r@ == trim_spec(s@),
{
    let n: usize = s.unicode_len();
    let mut a: usize = 0;
    while a < n
        invariant
            a <= n,
            n == s@.len(),
            skip_space(s@, 0) == skip_space(s@, a as int),
        ensures
            a as int == skip_space(s@, 0),
            a <= n,
        decreases n - a,
    {
        if !char_is_space(s.get_char(a)) {
            break ;
        }
        a = a + 1;
    }
    let mut b: usize = n;
    while b > 0
        invariant
            b <= n,
            n == s@.len(),
            last_non_space(s@, n as int) == last_non_space(s@, b as int),
        ensures
            b as int == last_non_space(s@, n as int),
            b <= n,
        decreases b,
    {
        if !char_is_space(s.get_char(b - 1)) {
            break ;
        }
        b = b - 1;
    }
    if a >= b {
        let r = s.substring_char(0, 0);
        proof {
            assert(s@.subrange(0, 0) =~= Seq::<char>::empty());
        }
        r
    } else {
        s.substring_char(a, b)
    }
}

/// The text that follows the first occurrence of `key` in `l`, trimmed.
pub open spec fn after_key(l: Seq<char>, key: Seq<char>) -> Seq<char> {
    trim_spec(l.subrange(find_sub_from(l, key, 0) + key.len() as int, l.len() as int))
}

pub fn value_after_key(line: &str, key: &str) -> (r: String)
    requires
        contains_sub(line@, key@),
        key@.len() >= 1,
    ensures
        r@ == after_key(line@, key@),
{
    proof {
        lemma_find_sub(line@, key@, 0);
        assert(find_sub_from(line@, key@, 0) < line@.len());
    }
    let i: usize = find_sub_at(line, 0, key);
    let klen: usize = key.unicode_len();
    let n: usize = line.unicode_len();
    let t = line.substring_char(i + klen, n);
    let tr = trim_str(t);
    String::from_str(tr)
}

/// `s` with every `[` and `]` removed.
pub open spec fn without_brackets(s: Seq<char>) -> Seq<char>
    decreases s.len(),
{
    if s.len() == 0 {
        Seq::empty()
    } else {
        without_brackets(s.drop_last()) + (if s.last() == '[' || s.last() == ']' {
            Seq::<char>::empty()
        } else {
            seq![s.last()]
        })
    }
}

pub fn strip_brackets(s: &str) -> (r: String)
    ensures
        r@ == without_brackets(s@),
{
    let n: usize = s.unicode_len();
    let mut out = String::new();
    let mut i: usize = 0;
    while i < n
        invariant
            i <= n,
            n == s@.len(),
            out@ == without_brackets(s@.subrange(0, i as int)),
        decreases n - i,
    {
        let c = s.get_char(i);
        if !(c == '[' || c == ']') {
            let piece = s.substring_char(i, i + 1);
            proof {
                assert(piece@ =~= seq![s@[i as int]]);
            }
            out.append(piece);
        }
        proof {
            assert(s@.subrange(0, i as int + 1).drop_last() =~= s@.subrange(0, i as int));
            assert(s@.subrange(0, i as int + 1).last() == s@[i as int]);
        }
        i = i + 1;
    }
    proof {
        assert(s@.subrange(0, n as int) =~= s@);
    }
    out
}

} // verus!
