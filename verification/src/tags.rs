//! Parsing of free-form metadata values: tag numbers, years, booleans and
//! version strings.

use vstd::prelude::*;
use crate::strings::chars_of;
use crate::text::{
    before_first, before_first_chars, chars_eq_str, lower_chars, lower_seq, parse_i32_chars,
    parse_i32_spec, parse_u32_chars, parse_u64_chars, parse_unsigned, trim, trim_chars,
};

verus! {

/// Track/disc number tag: the part before `/`, trimmed, as `u32`
/// (`"3/12"` gives 3).
pub open spec fn u32_tag(raw: Seq<char>) -> Option<u32> {
    match parse_unsigned(trim(before_first(raw, '/')), u32::MAX as nat) {
        Some(n) => Some(n as u32),
        None => None,
    }
}

/// Year-like value: the part before `-`, trimmed, as `i32`
/// (`"1999-04-01"` gives 1999).
pub open spec fn i32_tag(raw: Seq<char>) -> Option<i32> {
    parse_i32_spec(trim(before_first(raw, '-')))
}

/// Boolean tag: `1`, `true`, `yes` or `y`, trimmed and ignoring ASCII case.
pub open spec fn bool_tag(raw: Seq<char>) -> bool {
    let v = lower_seq(trim(raw));
    v == "1"@ || v == "true"@ || v == "yes"@ || v == "y"@
}

/// Parses a track or disc number tag.
pub fn parse_u32_tag(raw: &str) -> (r: Option<u32>)
    ensures
        r == u32_tag(raw@),
{
    let c = chars_of(raw);
    let first = before_first_chars(c.as_slice(), '/');
    let t = trim_chars(first.as_slice());
    parse_u32_chars(t.as_slice())
}

/// Parses a date tag into its year.
pub fn parse_i32_tag(raw: &str) -> (r: Option<i32>)
    ensures
        r == i32_tag(raw@),
{
    let c = chars_of(raw);
    let first = before_first_chars(c.as_slice(), '-');
    let t = trim_chars(first.as_slice());
    parse_i32_chars(t.as_slice())
}

/// Parses the year of a release date such as `1999-04-01`.
pub fn parse_year(raw: &str) -> (r: Option<i32>)
    ensures
        r == i32_tag(raw@),
{
    parse_i32_tag(raw)
}

/// Parses a compilation flag tag.
pub fn parse_bool_tag(raw: &str) -> (r: bool)
    ensures
        r == bool_tag(raw@),
{
    let c = chars_of(raw);
    let t = trim_chars(c.as_slice());
    let l = lower_chars(t.as_slice());
    let l = l.as_slice();
    chars_eq_str(l, "1") || chars_eq_str(l, "true") || chars_eq_str(l, "yes") || chars_eq_str(l, "y")
}

/// Major version: the part before the first `.` as `u64`.
pub open spec fn major_of(version: Seq<char>) -> Option<u64> {
    match parse_unsigned(before_first(version, '.'), u64::MAX as nat) {
        Some(n) => Some(n as u64),
        None => None,
    }
}

/// Parses the major component of a version string (`"2.1.0"` gives 2).
pub fn parse_major(version: &str) -> (r: Option<u64>)
    ensures
        r == major_of(version@),
{
    let c = chars_of(version);
    let first = before_first_chars(c.as_slice(), '.');
    parse_u64_chars(first.as_slice())
}

/// A bridge is compatible when it reports a version whose major component
/// equals the server's.
pub open spec fn version_compatible(version: Option<Seq<char>>, server_version: Seq<char>) -> bool {
    match version {
        None => false,
        Some(v) => match (major_of(v), major_of(server_version)) {
            (Some(a), Some(b)) => a == b,
            _ => false,
        },
    }
}

/// Requires a matching major version between a discovered bridge and the
/// server (`server_version` is the server's own package version).
pub fn is_bridge_version_compatible(version: Option<&str>, server_version: &str) -> (r: bool)
    ensures
        r == version_compatible(crate::media::opt_str_view(version), server_version@),
{
    let Some(version) = version else {
        return false;
    };
    let Some(bridge_major) = parse_major(version) else {
        return false;
    };
    let Some(server_major) = parse_major(server_version) else {
        return false;
    };
    bridge_major == server_major
}

/// A missing or whitespace-only value.
pub open spec fn blank(value: Option<Seq<char>>) -> bool {
    match value {
        None => true,
        Some(s) => trim(s).len() == 0,
    }
}

/// The view of an optional string.
pub open spec fn opt_string_view(o: Option<String>) -> Option<Seq<char>> {
    match o {
        Some(s) => Some(s@),
        None => None,
    }
}

/// Returns `true` when the value is missing or whitespace-only.
pub fn is_blank(value: &Option<String>) -> (r: bool)
    ensures
        r == blank(opt_string_view(*value)),
{
    match value {
        None => true,
        Some(s) => {
            let c = chars_of(s.as_str());
            let t = trim_chars(c.as_slice());
            t.len() == 0
        },
    }
}

/// The extension hint, unless it is empty or whitespace-only.
pub fn ext_hint_option(ext_hint: &str) -> (r: Option<&str>)
    ensures
        r == if trim(ext_hint@).len() == 0 {
            None::<&str>
        } else {
            Some(ext_hint)
        },
{
    let c = chars_of(ext_hint);
    let t = trim_chars(c.as_slice());
    if t.len() == 0 {
        None
    } else {
        Some(ext_hint)
    }
}

} // verus!
