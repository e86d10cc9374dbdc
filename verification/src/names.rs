//! Identifier-safe renderings of free-form names: cover-cache slugs and
//! session id segments.

use vstd::prelude::*;
use crate::strings::{chars_of, string_from_chars};
use crate::text::{char_is_alnum, char_lower, is_alnum, lower, trim_char, trim_char_chars};

verus! {

/// Slug characters before trimming dashes: ASCII alphanumerics lowercased,
/// every run of other characters replaced by one `-`. The flag tells
/// whether the output ends in a dash that came from such a run.
pub open spec fn slug_scan(s: Seq<char>) -> (Seq<char>, bool)
    decreases s.len(),
{
    if s.len() == 0 {
        (Seq::empty(), false)
    } else {
        let (out, last_dash) = slug_scan(s.drop_last());
        let c = s.last();
        if is_alnum(c) {
            (out.push(lower(c)), false)
        } else if !last_dash {
            (out.push('-'), true)
        } else {
            (out, true)
        }
    }
}

/// Cover-cache slug of a name: the scan with leading and trailing dashes
/// removed, or `cover` when nothing is left.
pub open spec fn slug(s: Seq<char>) -> Seq<char> {
    let t = trim_char(slug_scan(s).0, '-');
    if t.len() == 0 {
        "cover"@
    } else {
        t
    }
}

/// Renders a name as a lowercase dash-separated slug
/// (`"A-Ha: Hunting High & Low"` gives `a-ha-hunting-high-low`).
pub fn slugify(value: &str) -> (r: String)
    ensures
        r@ == slug(value@),
{
    let v = chars_of(value);
    let mut out: Vec<char> = Vec::new();
    let mut last_dash = false;
    let mut i: usize = 0;
    while i < v.len()
        invariant
            i <= v@.len(),
            v@ == value@,
            slug_scan(v@.take(i as int)) == (out@, last_dash),
        decreases v@.len() - i,
    {
        let ch = v[i];
        assert(v@.take(i + 1).drop_last() =~= v@.take(i as int));
        assert(v@.take(i + 1).last() == ch);
        if char_is_alnum(ch) {
            out.push(char_lower(ch));
            last_dash = false;
        } else if !last_dash {
            out.push('-');
            last_dash = true;
        }
        i = i + 1;
    }
    assert(v@.take(v@.len() as int) =~= v@);
    let t = trim_char_chars(out.as_slice(), '-');
    if t.len() == 0 {
        String::from_str("cover")
    } else {
        string_from_chars(t.as_slice())
    }
}

/// A character allowed in a session id segment, lowercased; anything else
/// becomes `-`.
pub open spec fn segment_char(c: char) -> char {
    if is_alnum(c) || c == '_' || c == '-' {
        lower(c)
    } else {
        '-'
    }
}

/// Session id segment for a free-form client kind: characters mapped by
/// `segment_char`, leading and trailing dashes removed.
pub open spec fn segment(s: Seq<char>) -> Seq<char> {
    trim_char(s.map_values(|c: char| segment_char(c)), '-')
}

/// Sanitizes a free-form id segment for `local:<kind>:...` session ids.
pub fn sanitize_segment(value: &str) -> (r: String)
    ensures
        r@ == segment(value@),
{
    let v = chars_of(value);
    let mut out: Vec<char> = Vec::new();
    let mut i: usize = 0;
    while i < v.len()
        invariant
            i <= v@.len(),
            out@ == v@.take(i as int).map_values(|c: char| segment_char(c)),
        decreases v@.len() - i,
    {
        let c = v[i];
        let m = if char_is_alnum(c) || c == '_' || c == '-' {
            char_lower(c)
        } else {
            '-'
        };
        out.push(m);
        assert(v@.take(i + 1).map_values(|c: char| segment_char(c)) =~= v@.take(i as int).map_values(
            |c: char| segment_char(c),
        ).push(segment_char(c)));
        i = i + 1;
    }
    assert(v@.take(v@.len() as int) =~= v@);
    let t = trim_char_chars(out.as_slice(), '-');
    string_from_chars(t.as_slice())
}

} // verus!
