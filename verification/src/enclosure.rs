//! Enclosure discovery: device-lister rows and identity-query output.
//!
//! The device lister prints one row per SCSI generic device, such as
//! `[0:0:8:0]   enclosu DP       BP13G+EXP        2.25  /dev/sg2`.
//! A row describes an enclosure when it carries the enclosure class
//! marker; its first field is the slot label (brackets stripped) and the
//! device path is the first field that begins with `/dev/`, since the
//! column widths before it vary.
//!
//! The identity query prints `Key: value` lines.  A field whose key never
//! occurs in the output defaults to `NONE`: unexpected output degrades to
//! defaults, it never aborts a discovery pass.

use vstd::prelude::*;
use vstd::string::StrSliceExecFns;
use vstd::string::StringExecFns;

use crate::scan::after_key;
use crate::scan::contains_sub;
use crate::scan::find_char;
use crate::scan::find_char_at;
use crate::scan::lemma_find_char;
use crate::scan::skip_char;
use crate::scan::skip_char_at;
use crate::scan::starts_with_sub;
use crate::scan::str_contains;
use crate::scan::str_starts_with;
use crate::scan::strip_brackets;
use crate::scan::value_after_key;
use crate::scan::without_brackets;

verus! {

/// One physical storage enclosure, as reported by the host.  The durable
/// identity across queries is `serial`; `device_path` is only valid
/// within the same session.
#[derive(Debug)]
pub struct Enclosure {
    pub slot: String,
    pub device_path: String,
    pub vendor: String,
    pub model: String,
    pub revision: String,
    pub serial: String,
}

/// The four identity fields of one enclosure, each `NONE` when the
/// identity query never printed it.
#[derive(Debug)]
pub struct EnclosureIdentity {
    pub vendor: String,
    pub model: String,
    pub revision: String,
    pub serial: String,
}

/// The value of one identity field over a whole query output: the
/// captured value of the last line that holds `key`, or `NONE` when no
/// line does.
pub open spec fn ident_field(lines: Seq<Seq<char>>, key: Seq<char>) -> Seq<char>
    decreases lines.len(),
{
    if lines.len() == 0 {
        "NONE"@
    } else if contains_sub(lines.last(), key) {
        after_key(lines.last(), key)
    } else {
        ident_field(lines.drop_last(), key)
    }
}

/// Parses identity-query output into the four identity fields.  A line
/// contributes to a field when it holds the field's key; the value is the
/// trimmed remainder of the line after the key.  Fields never seen stay
/// `NONE`.
pub fn parse_identity_output(lines: &Vec<String>) -> (r: EnclosureIdentity)
    ensures
        r.vendor@ == ident_field(lines.deep_view(), "Vendor identification:"@),
        r.model@ == ident_field(lines.deep_view(), "Product identification:"@),
        r.revision@ == ident_field(lines.deep_view(), "Product revision level:"@),
        r.serial@ == ident_field(lines.deep_view(), "Unit serial number:"@),
{
    proof {
        reveal_strlit("Vendor identification:");
        reveal_strlit("Product identification:");
        reveal_strlit("Product revision level:");
        reveal_strlit("Unit serial number:");
    }
    let mut vendor = String::from_str("NONE");
    let mut model = String::from_str("NONE");
    let mut revision = String::from_str("NONE");
    let mut serial = String::from_str("NONE");
    let mut i: usize = 0;
    while i < lines.len()
        invariant
            i <= lines.len(),
            vendor@ == ident_field(
                lines.deep_view().subrange(0, i as int),
                "Vendor identification:"@,
            ),
            model@ == ident_field(
                lines.deep_view().subrange(0, i as int),
                "Product identification:"@,
            ),
            revision@ == ident_field(
                lines.deep_view().subrange(0, i as int),
                "Product revision level:"@,
            ),
            serial@ == ident_field(lines.deep_view().subrange(0, i as int), "Unit serial number:"@),
        decreases lines.len() - i,
    {
        proof {
            reveal_strlit("Vendor identification:");
            reveal_strlit("Product identification:");
            reveal_strlit("Product revision level:");
            reveal_strlit("Unit serial number:");
            assert(lines.deep_view().subrange(0, i as int + 1).drop_last() =~= lines.deep_view()
                .subrange(0, i as int));
            assert(lines.deep_view().subrange(0, i as int + 1).last() == lines@[i as int]@);
        }
        let line = &lines[i];
        if str_contains(line.as_str(), "Vendor identification:") {
            vendor = value_after_key(line.as_str(), "Vendor identification:");
        }
        if str_contains(line.as_str(), "Product identification:") {
            model = value_after_key(line.as_str(), "Product identification:");
        }
        if str_contains(line.as_str(), "Product revision level:") {
            revision = value_after_key(line.as_str(), "Product revision level:");
        }
        if str_contains(line.as_str(), "Unit serial number:") {
            serial = value_after_key(line.as_str(), "Unit serial number:");
        }
        i = i + 1;
    }
    proof {
        assert(lines.deep_view().subrange(0, lines@.len() as int) =~= lines.deep_view());
    }
    EnclosureIdentity { vendor, model, revision, serial }
}

/// Start of the first space-separated field of `s` that begins with
/// `/dev/`; `s.len()` when no field does.
pub open spec fn dev_token_start(s: Seq<char>, from: int) -> int
    recommends
        0 <= from <= s.len(),
    decreases s.len() - from,
    via dev_token_start_dec
{
    if from < 0 || from >= s.len() {
        s.len() as int
    } else if s[from] == ' ' {
        dev_token_start(s, from + 1)
    } else if starts_with_sub(s.subrange(from, find_char(s, from, ' ')), "/dev/"@) {
        from
    } else {
        dev_token_start(s, find_char(s, from, ' '))
    }
}

#[via_fn]
proof fn dev_token_start_dec(s: Seq<char>, from: int) {
    if 0 <= from < s.len() && s[from] != ' ' {
        lemma_find_char(s, from, ' ');
    }
}

fn find_dev_token(line: &str) -> (r: usize)
    ensures
        r as int == dev_token_start(line@, 0),
        r <= line@.len(),
{
    let n: usize = line.unicode_len();
    let mut i: usize = 0;
    while i < n
        invariant
            i <= n,
            n == line@.len(),
            dev_token_start(line@, 0) == dev_token_start(line@, i as int),
        ensures
            i <= n,
            i as int == dev_token_start(line@, 0),
        decreases n - i,
    {
        let c = line.get_char(i);
        if c == ' ' {
            i = i + 1;
        } else {
            let e: usize = find_char_at(line, i, ' ');
            let tok = line.substring_char(i, e);
            if str_starts_with(tok, "/dev/") {
                break ;
            }
            proof {
                lemma_find_char(line@, i as int + 1, ' ');
                assert(find_char(line@, i as int, ' ') == find_char(line@, i as int + 1, ' '));
            }
            i = e;
        }
    }
    i
}

/// The slot label of a device-lister row: its first space-separated
/// field, with every bracket removed.
pub open spec fn lister_slot(s: Seq<char>) -> Seq<char> {
    without_brackets(s.subrange(skip_char(s, 0, ' '), find_char(s, skip_char(s, 0, ' '), ' ')))
}

/// The device path of a device-lister row: its first field that begins
/// with `/dev/`.
pub open spec fn lister_device(s: Seq<char>) -> Seq<char> {
    let d = dev_token_start(s, 0);
    s.subrange(d, find_char(s, d, ' '))
}

/// A device-lister row yields an enclosure when it carries the enclosure
/// class marker and has a device-path field.
pub open spec fn lister_line_parses(s: Seq<char>) -> bool {
    contains_sub(s, "enclosu"@) && dev_token_start(s, 0) < s.len()
}

/// Parses one device-lister row.  Rows without the enclosure marker are
/// skipped; so is a marked row without any `/dev/` field, since there is
/// then no device to query.  Yields the slot label (brackets stripped)
/// and the device path.
pub fn parse_lister_line(line: &str) -> (r: Option<(String, String)>)
    ensures
        r is Some <==> lister_line_parses(line@),
        r is Some ==> (r->Some_0).0@ == lister_slot(line@),
        r is Some ==> (r->Some_0).1@ == lister_device(line@),
{
    if !str_contains(line, "enclosu") {
        return None;
    }
    let n: usize = line.unicode_len();
    let d: usize = find_dev_token(line);
    if d == n {
        return None;
    }
    let a: usize = skip_char_at(line, 0, ' ');
    let e: usize = find_char_at(line, a, ' ');
    let slot = strip_brackets(line.substring_char(a, e));
    let ed: usize = find_char_at(line, d, ' ');
    let device = String::from_str(line.substring_char(d, ed));
    Some((slot, device))
}

/// The (slot, device path) pairs of a whole device-lister output, one
/// per enclosure row, in row order.
pub open spec fn lister_pairs(lines: Seq<Seq<char>>) -> Seq<(Seq<char>, Seq<char>)>
    decreases lines.len(),
{
    if lines.len() == 0 {
        Seq::empty()
    } else {
        lister_pairs(lines.drop_last()) + (if lister_line_parses(lines.last()) {
            seq![(lister_slot(lines.last()), lister_device(lines.last()))]
        } else {
            Seq::<(Seq<char>, Seq<char>)>::empty()
        })
    }
}

/// Filters a device-lister output down to its enclosure rows and
/// extracts slot label and device path from each: exactly one pair per
/// row that parses, in row order.  The identity of each device is
/// queried afterwards, one query per pair.
pub fn parse_lister_output(lines: &Vec<String>) -> (r: Vec<(String, String)>)
    ensures
        r@.len() == lister_pairs(lines.deep_view()).len(),
        forall|k: int|
            0 <= k < r@.len() ==> (#[trigger] r@[k]).0@ == lister_pairs(lines.deep_view())[k].0
                && r@[k].1@ == lister_pairs(lines.deep_view())[k].1,
{
    let mut out: Vec<(String, String)> = Vec::new();
    let mut i: usize = 0;
    while i < lines.len()
        invariant
            i <= lines.len(),
            out@.len() == lister_pairs(lines.deep_view().subrange(0, i as int)).len(),
            forall|k: int|
                0 <= k < out@.len() ==> (#[trigger] out@[k]).0@ == lister_pairs(
                    lines.deep_view().subrange(0, i as int),
                )[k].0 && out@[k].1@ == lister_pairs(lines.deep_view().subrange(0, i as int))[k].1,
        decreases lines.len() - i,
    {
        proof {
            assert(lines.deep_view().subrange(0, i as int + 1).drop_last() =~= lines.deep_view()
                .subrange(0, i as int));
            assert(lines.deep_view().subrange(0, i as int + 1).last() == lines@[i as int]@);
        }
        let line = &lines[i];
        if let Some(p) = parse_lister_line(line.as_str()) {
            out.push(p);
        }
        i = i + 1;
    }
    proof {
        assert(lines.deep_view().subrange(0, lines@.len() as int) =~= lines.deep_view());
    }
    out
}

/// Builds the enclosure record for one device-lister row from its slot,
/// device path and queried identity.
pub fn enclosure_from_parts(slot: String, device_path: String, id: EnclosureIdentity) -> (r:
    Enclosure)
    ensures
        r.slot == slot,
        r.device_path == device_path,
        r.vendor == id.vendor,
        r.model == id.model,
        r.revision == id.revision,
        r.serial == id.serial,
{
    Enclosure {
        slot,
        device_path,
        vendor: id.vendor,
        model: id.model,
        revision: id.revision,
        serial: id.serial,
    }
}

} // verus!
