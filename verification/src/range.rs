//! HTTP byte ranges of streamed files.

use vstd::prelude::*;
use crate::strings::{chars_of, string_from_chars};
use crate::text::{before_first, before_first_chars, parse_u64_chars, parse_unsigned, push_digits, digits_of, push_str_chars, split_once_chars, split_once_spec, sub_chars, trim, trim_chars};

verus! {

/// `s` with every leading repetition of `p` removed
/// (`str::trim_start_matches`).
pub open spec fn strip_all(s: Seq<char>, p: Seq<char>) -> Seq<char>
    decreases s.len(),
{
    if p.len() > 0 && p.is_prefix_of(s) {
        strip_all(s.skip(p.len() as int), p)
    } else {
        s
    }
}

/// A number as `u64`.
pub open spec fn u64_of(s: Seq<char>) -> Option<u64> {
    match parse_unsigned(s, u64::MAX as nat) {
        Some(n) => Some(n as u64),
        None => None,
    }
}

/// The last byte position of a file, saturating at 0 for an empty one.
pub open spec fn last_pos(total_len: u64) -> u64 {
    if total_len == 0 {
        0
    } else {
        (total_len - 1) as u64
    }
}

/// The byte range a `Range` header asks for: the first range of a
/// `bytes=` header, `start-` or `start-end`; its end is clamped to the
/// last byte; none when the header is of another unit, the range has no
/// start, a number does not parse, the start is past the file or the end
/// is before the start.
pub open spec fn range_spec(header: Seq<char>, total_len: u64) -> Option<(u64, u64)> {
    let t = trim(header);
    if !("bytes="@.is_prefix_of(t)) {
        None
    } else {
        let first = before_first(strip_all(t, "bytes="@), ',');
        match split_once_spec(first, '-') {
            None => None,
            Some((s, e)) => if s.len() == 0 {
                None
            } else {
                match u64_of(s) {
                    None => None,
                    Some(start) => {
                        let end = if e.len() == 0 {
                            Some(last_pos(total_len))
                        } else {
                            u64_of(e)
                        };
                        match end {
                            None => None,
                            Some(end) => if start >= total_len || end < start {
                                None
                            } else {
                                Some(
                                    (
                                        start,
                                        if end < last_pos(total_len) {
                                            end
                                        } else {
                                            last_pos(total_len)
                                        },
                                    ),
                                )
                            },
                        }
                    },
                }
            },
        }
    }
}

fn has_prefix(v: &[char], p: &[char]) -> (r: bool)
    ensures
        r == p@.is_prefix_of(v@),
{
    if p.len() > v.len() {
        return false;
    }
    let head = sub_chars(v, 0, p.len());
    assert(head@ =~= v@.take(p@.len() as int));
    crate::text::chars_eq(head.as_slice(), p)
}

/// Parses a single `Range` header against a file length.
pub fn parse_single_range(header: &str, total_len: u64) -> (r: Option<(u64, u64)>)
    ensures
        r == range_spec(header@, total_len),
        r matches Some((start, end)) ==> start <= end < total_len,
{
    let c = chars_of(header);
    let t = trim_chars(c.as_slice());
    let prefix = chars_of("bytes=");
    proof {
        reveal_strlit("bytes=");
        assert(prefix@.len() == 6);
    }
    if !has_prefix(t.as_slice(), prefix.as_slice()) {
        return None;
    }
    let mut rest = t;
    while has_prefix(rest.as_slice(), prefix.as_slice())
        invariant
            prefix@ == "bytes="@,
            prefix@.len() == 6,
            strip_all(rest@, prefix@) == strip_all(trim(header@), prefix@),
        decreases rest@.len(),
    {
        let n = rest.len();
        let next = sub_chars(rest.as_slice(), prefix.len(), n);
        assert(next@ =~= rest@.skip(prefix@.len() as int));
        rest = next;
    }
    let first = before_first_chars(rest.as_slice(), ',');
    let (s, e) = match split_once_chars(first.as_slice(), '-') {
        None => {
            return None;
        },
        Some(p) => p,
    };
    if s.len() == 0 {
        return None;
    }
    let start = match parse_u64_chars(s.as_slice()) {
        None => {
            return None;
        },
        Some(v) => v,
    };
    let last = if total_len == 0 {
        0
    } else {
        total_len - 1
    };
    let end = if e.len() == 0 {
        last
    } else {
        match parse_u64_chars(e.as_slice()) {
            None => {
                return None;
            },
            Some(v) => v,
        }
    };
    if start >= total_len || end < start {
        return None;
    }
    Some((start, if end < last { end } else { last }))
}

/// How a file is streamed.
pub struct StreamPlan {
    /// First byte sent.
    pub start: u64,
    /// Number of bytes sent.
    pub len: u64,
    /// Partial content (206) rather than the whole file (200).
    pub partial: bool,
    /// `Content-Range` value of a partial response.
    pub content_range: Option<String>,
}

/// `Content-Range` of a partial response: `bytes {start}-{end}/{total}`.
pub open spec fn content_range_spec(start: u64, end: u64, total: u64) -> Seq<char> {
    "bytes "@ + digits_of(start as nat) + "-"@ + digits_of(end as nat) + "/"@ + digits_of(total as nat)
}

/// Plans the response to a stream request: the whole file without a
/// `Range` header; the requested range with one; refused (416) when a
/// header is present but gives no usable range.
pub fn stream_plan(range_header: Option<&str>, total_len: u64) -> (r: Option<StreamPlan>)
    ensures
        match range_header {
            None => r matches Some(p) && p.start == 0 && p.len == total_len && !p.partial
                && p.content_range is None,
            Some(h) => match range_spec(h@, total_len) {
                None => r is None,
                Some((s, e)) => r matches Some(p) && p.start == s && p.len == e - s + 1 && p.partial
                    && (p.content_range matches Some(cr) && cr@ == content_range_spec(s, e, total_len)),
            },
        },
{
    match range_header {
        None => Some(StreamPlan { start: 0, len: total_len, partial: false, content_range: None }),
        Some(h) => match parse_single_range(h, total_len) {
            None => None,
            Some((start, end)) => {
                let mut out: Vec<char> = Vec::new();
                push_str_chars(&mut out, "bytes ");
                push_digits(&mut out, start);
                push_str_chars(&mut out, "-");
                push_digits(&mut out, end);
                push_str_chars(&mut out, "/");
                push_digits(&mut out, total_len);
                assert(out@ =~= content_range_spec(start, end, total_len));
                Some(
                    StreamPlan {
                        start,
                        len: end - start + 1,
                        partial: true,
                        content_range: Some(string_from_chars(out.as_slice())),
                    },
                )
            },
        },
    }
}

} // verus!
