//! Album titles that carry a disc suffix (`Album - Disc 2`, `Album (CD1)`,
//! `Album 2`): how the suffix is read, and when the title is shortened and
//! the disc number set from it.

use vstd::prelude::*;
use crate::paths::{file_name_of, last_index, last_index_of, parent, parent_of};
use crate::strings::{chars_of, string_from_chars};
use crate::tags::opt_string_view;
use crate::text::{
    char_is_alnum, char_is_digit, char_is_ws, chars_eq, is_alnum, is_digit, is_ws, lower_chars,
    lower_seq, parse_u32_chars, parse_unsigned, sub_chars, trim, trim_chars, trim_end, trim_end_chars,
    trim_start, trim_start_chars,
};

verus! {

/// Last position below `n` at which `pat` occurs in `s`.
pub open spec fn rfind_below(s: Seq<char>, pat: Seq<char>, n: int) -> Option<int>
    decreases n,
{
    if n <= 0 {
        None
    } else if n - 1 + pat.len() <= s.len() && s.subrange(n - 1, n - 1 + pat.len()) == pat {
        Some(n - 1)
    } else {
        rfind_below(s, pat, n - 1)
    }
}

/// The parts around the last occurrence of `pat` (`str::rsplit_once`).
pub open spec fn rsplit_once_spec(s: Seq<char>, pat: Seq<char>) -> Option<(Seq<char>, Seq<char>)> {
    match rfind_below(s, pat, s.len() + 1 - pat.len()) {
        Some(i) => Some((s.take(i), s.skip(i + pat.len()))),
        None => None,
    }
}

/// A title split at the last `delim`: both sides non-empty once the left
/// is trimmed at its end and the right at its start.
pub open spec fn split_delim_spec(raw: Seq<char>, delim: Seq<char>) -> Option<(Seq<char>, Seq<char>)> {
    match rsplit_once_spec(raw, delim) {
        Some((l, r)) => {
            let l2 = trim_end(l);
            let r2 = trim_start(r);
            if l2.len() > 0 && r2.len() > 0 {
                Some((l2, r2))
            } else {
                None
            }
        },
        None => None,
    }
}

/// Opening bracket matching a closing one.
pub open spec fn opener_of(c: char) -> Option<char> {
    if c == ')' {
        Some('(')
    } else if c == ']' {
        Some('[')
    } else if c == '}' {
        Some('{')
    } else {
        None
    }
}

/// A title ending in a bracketed suffix, split at the last matching opening
/// bracket: the text before it (trimmed at its end) and inside it
/// (trimmed), both non-empty.
pub open spec fn split_wrapped_spec(raw: Seq<char>) -> Option<(Seq<char>, Seq<char>)> {
    if raw.len() == 0 {
        None
    } else {
        match opener_of(raw.last()) {
            None => None,
            Some(open) => match last_index(raw, open) {
                None => None,
                Some(start) => {
                    let left = trim_end(raw.take(start));
                    let suffix = trim(raw.subrange(start + 1, raw.len() - 1));
                    if left.len() == 0 || suffix.len() == 0 {
                        None
                    } else {
                        Some((left, suffix))
                    }
                },
            },
        }
    }
}

/// `s` without its leading characters that are not ASCII digits.
pub open spec fn from_first_digit(s: Seq<char>) -> Seq<char>
    decreases s.len(),
{
    if s.len() > 0 && !is_digit(s[0]) {
        from_first_digit(s.drop_first())
    } else {
        s
    }
}

/// The leading characters of `s` up to the first whitespace.
pub open spec fn until_ws(s: Seq<char>) -> Seq<char>
    decreases s.len(),
{
    if s.len() == 0 || is_ws(s[0]) {
        Seq::empty()
    } else {
        seq![s[0]] + until_ws(s.drop_first())
    }
}

/// A number as `u32`.
pub open spec fn u32_of(s: Seq<char>) -> Option<u32> {
    match parse_unsigned(s, u32::MAX as nat) {
        Some(n) => Some(n as u32),
        None => None,
    }
}

/// The disc number after a leading `key` (`disc 2`, `cd1`): the first
/// whitespace-separated word from the first digit on.
pub open spec fn keyed_number(lower: Seq<char>, key: Seq<char>) -> Option<u32> {
    if key.is_prefix_of(lower) {
        let rest = from_first_digit(lower.skip(key.len() as int));
        if rest.len() == 0 {
            None
        } else {
            u32_of(until_ws(rest))
        }
    } else {
        None
    }
}

/// Runs of ASCII letters and digits: the finished ones and the one being
/// read.
pub open spec fn token_scan(s: Seq<char>) -> (Seq<Seq<char>>, Seq<char>)
    decreases s.len(),
{
    if s.len() == 0 {
        (Seq::empty(), Seq::empty())
    } else {
        let (done, cur) = token_scan(s.drop_last());
        if is_alnum(s.last()) {
            (done, cur.push(s.last()))
        } else if cur.len() > 0 {
            (done.push(cur), Seq::empty())
        } else {
            (done, cur)
        }
    }
}

/// The runs of ASCII letters and digits of `s`, in order.
pub open spec fn alnum_tokens(s: Seq<char>) -> Seq<Seq<char>> {
    let (done, cur) = token_scan(s);
    if cur.len() > 0 {
        done.push(cur)
    } else {
        done
    }
}

/// Whether a word names a disc.
pub open spec fn is_disc_word(t: Seq<char>) -> bool {
    t == "disc"@ || t == "disk"@ || t == "cd"@
}

/// The first number that follows a disc word among the tokens.
pub open spec fn disc_after_word(tokens: Seq<Seq<char>>) -> Option<u32>
    decreases tokens.len(),
{
    if tokens.len() < 2 {
        None
    } else if is_disc_word(tokens[0]) && u32_of(tokens[1]) is Some {
        u32_of(tokens[1])
    } else {
        disc_after_word(tokens.drop_first())
    }
}

/// Disc number of a free-form suffix or folder name (`2`, `Disc 2`,
/// `CD1`, `Part 1 - Disc 3`): the whole value as a number; else after a
/// leading `disc`, `disk` or `cd`; else the number following such a word.
/// Case is ignored.
pub open spec fn disc_number_spec(raw: Seq<char>) -> Option<u32> {
    let lower = lower_seq(trim(raw));
    if lower.len() == 0 {
        None
    } else if u32_of(lower) is Some {
        u32_of(lower)
    } else if keyed_number(lower, "disc"@) is Some {
        keyed_number(lower, "disc"@)
    } else if keyed_number(lower, "disk"@) is Some {
        keyed_number(lower, "disk"@)
    } else if keyed_number(lower, "cd"@) is Some {
        keyed_number(lower, "cd"@)
    } else {
        disc_after_word(alnum_tokens(lower))
    }
}

fn digit_start(v: &[char]) -> (r: Vec<char>)
    ensures
        r@ == from_first_digit(v@),
{
    let mut a: usize = 0;
    assert(v@.subrange(0, v@.len() as int) =~= v@);
    while a < v.len() && !char_is_digit(v[a])
        invariant
            a <= v@.len(),
            from_first_digit(v@) == from_first_digit(v@.subrange(a as int, v@.len() as int)),
        decreases v@.len() - a,
    {
        assert(v@.subrange(a as int, v@.len() as int).drop_first() =~= v@.subrange(a + 1, v@.len() as int));
        a = a + 1;
    }
    sub_chars(v, a, v.len())
}

fn first_word(v: &[char]) -> (r: Vec<char>)
    ensures
        r@ == until_ws(v@),
{
    let mut b: usize = 0;
    assert(v@.skip(0) =~= v@);
    assert(v@.take(0) + until_ws(v@) =~= until_ws(v@));
    while b < v.len() && !char_is_ws(v[b])
        invariant
            b <= v@.len(),
            until_ws(v@) == v@.take(b as int) + until_ws(v@.skip(b as int)),
        decreases v@.len() - b,
    {
        proof {
            let t = v@.skip(b as int);
            assert(t[0] == v@[b as int]);
            assert(t.drop_first() =~= v@.skip(b + 1));
            assert(v@.take(b + 1) =~= v@.take(b as int) + seq![v@[b as int]]);
        }
        b = b + 1;
    }
    proof {
        if b < v@.len() {
            assert(v@.skip(b as int)[0] == v@[b as int]);
        }
        assert(until_ws(v@.skip(b as int)) =~= Seq::<char>::empty());
    }
    sub_chars(v, 0, b)
}

fn parse_u32_of(v: &[char]) -> (r: Option<u32>)
    ensures
        r == u32_of(v@),
{
    parse_u32_chars(v)
}

fn keyed(lower: &[char], key: &str) -> (r: Option<u32>)
    ensures
        r == keyed_number(lower@, key@),
{
    let k = chars_of(key);
    if k.len() > lower.len() {
        return None;
    }
    let head = sub_chars(lower, 0, k.len());
    if !chars_eq(head.as_slice(), k.as_slice()) {
        assert(head@ =~= lower@.take(k@.len() as int));
        return None;
    }
    assert(head@ =~= lower@.take(k@.len() as int));
    let after = sub_chars(lower, k.len(), lower.len());
    assert(after@ =~= lower@.skip(k@.len() as int));
    let rest = digit_start(after.as_slice());
    if rest.len() == 0 {
        return None;
    }
    let word = first_word(rest.as_slice());
    parse_u32_of(word.as_slice())
}

fn tokens_of(v: &[char]) -> (r: Vec<Vec<char>>)
    ensures
        r@.map_values(|t: Vec<char>| t@) == alnum_tokens(v@),
{
    let mut done: Vec<Vec<char>> = Vec::new();
    let mut cur: Vec<char> = Vec::new();
    let mut i: usize = 0;
    while i < v.len()
        invariant
            i <= v@.len(),
            token_scan(v@.take(i as int)) == (done@.map_values(|t: Vec<char>| t@), cur@),
        decreases v@.len() - i,
    {
        let c = v[i];
        let ghost t = v@.take(i + 1);
        proof {
            assert(t.drop_last() =~= v@.take(i as int));
            assert(t.last() == c);
        }
        if char_is_alnum(c) {
            cur.push(c);
        } else if cur.len() > 0 {
            let ghost before = done@;
            let finished = cur;
            cur = Vec::new();
            let ghost fv = finished@;
            done.push(finished);
            proof {
                assert(done@.map_values(|t: Vec<char>| t@) =~= before.map_values(|t: Vec<char>| t@).push(fv));
            }
        }
        i = i + 1;
    }
    proof {
        assert(v@.take(v@.len() as int) =~= v@);
    }
    if cur.len() > 0 {
        let ghost before = done@;
        let ghost cv = cur@;
        done.push(cur);
        proof {
            assert(done@.map_values(|t: Vec<char>| t@) =~= before.map_values(|t: Vec<char>| t@).push(cv));
        }
    }
    done
}

fn is_disc_word_chars(t: &[char]) -> (r: bool)
    ensures
        r == is_disc_word(t@),
{
    crate::text::chars_eq_str(t, "disc") || crate::text::chars_eq_str(t, "disk") || crate::text::chars_eq_str(t, "cd")
}

fn disc_after(tokens: &Vec<Vec<char>>) -> (r: Option<u32>)
    ensures
        r == disc_after_word(tokens@.map_values(|t: Vec<char>| t@)),
{
    let ghost all = tokens@.map_values(|t: Vec<char>| t@);
    let mut i: usize = 0;
    assert(all.subrange(0, all.len() as int) =~= all);
    while i < tokens.len() && i + 1 < tokens.len()
        invariant
            all == tokens@.map_values(|t: Vec<char>| t@),
            i <= all.len(),
            disc_after_word(all) == disc_after_word(all.subrange(i as int, all.len() as int)),
        decreases all.len() - i,
    {
        let ghost rest = all.subrange(i as int, all.len() as int);
        assert(rest[0] == tokens@[i as int]@);
        assert(rest[1] == tokens@[i + 1]@);
        assert(rest.drop_first() =~= all.subrange(i + 1, all.len() as int));
        if is_disc_word_chars(tokens[i].as_slice()) {
            let n = parse_u32_of(tokens[i + 1].as_slice());
            if n.is_some() {
                return n;
            }
        }
        i = i + 1;
    }
    None
}

/// Reads a disc number from a suffix or folder name.
pub fn parse_disc_number(raw: &str) -> (r: Option<u32>)
    ensures
        r == disc_number_spec(raw@),
{
    let c = chars_of(raw);
    let t = trim_chars(c.as_slice());
    let lower = lower_chars(t.as_slice());
    if lower.len() == 0 {
        return None;
    }
    let whole = parse_u32_of(lower.as_slice());
    if whole.is_some() {
        return whole;
    }
    let a = keyed(lower.as_slice(), "disc");
    if a.is_some() {
        return a;
    }
    let b = keyed(lower.as_slice(), "disk");
    if b.is_some() {
        return b;
    }
    let d = keyed(lower.as_slice(), "cd");
    if d.is_some() {
        return d;
    }
    let tokens = tokens_of(lower.as_slice());
    disc_after(&tokens)
}


fn rfind_chars(s: &[char], pat: &[char]) -> (r: Option<usize>)
    ensures
        match r {
            Some(i) => rfind_below(s@, pat@, s@.len() + 1 - pat@.len()) == Some(i as int) && i + pat@.len()
                <= s@.len(),
            None => rfind_below(s@, pat@, s@.len() + 1 - pat@.len()) is None,
        },
{
    let slen = s.len();
    if pat.len() > slen {
        return None;
    }
    if pat.len() == 0 {
        assert(s@.subrange(slen as int, slen as int) =~= pat@);
        return Some(slen);
    }
    let mut n: usize = slen - pat.len() + 1;
    while n > 0
        invariant
            slen == s@.len(),
            0 < pat@.len() <= s@.len(),
            n <= s@.len() - pat@.len() + 1,
            rfind_below(s@, pat@, s@.len() + 1 - pat@.len()) == rfind_below(s@, pat@, n as int),
        decreases n,
    {
        let start = n - 1;
        let mut j: usize = 0;
        let mut same = true;
        while j < pat.len()
            invariant
                slen == s@.len(),
                start + pat@.len() <= slen,
                j <= pat@.len(),
                same == (forall|m: int| 0 <= m < j ==> s@[start + m] == pat@[m]),
            decreases pat@.len() - j,
        {
            if s[start + j] != pat[j] {
                same = false;
            }
            j = j + 1;
        }
        if same {
            assert(s@.subrange(start as int, start + pat@.len()) =~= pat@);
            return Some(start);
        }
        proof {
            assert(s@.subrange(start as int, start + pat@.len()) != pat@) by {
                let m = choose|m: int| 0 <= m < pat@.len() && s@[start + m] != pat@[m];
                assert(s@.subrange(start as int, start + pat@.len())[m] == s@[start + m]);
            }
        }
        n = n - 1;
    }
    None
}

fn split_delim(raw: &[char], delim: &str) -> (r: Option<(Vec<char>, Vec<char>)>)
    ensures
        match r {
            Some((l, rr)) => split_delim_spec(raw@, delim@) == Some((l@, rr@)),
            None => split_delim_spec(raw@, delim@) is None,
        },
{
    let d = chars_of(delim);
    match rfind_chars(raw, d.as_slice()) {
        Some(i) => {
            let n = raw.len();
            let left = sub_chars(raw, 0, i);
            let right = sub_chars(raw, i + d.len(), n);
            assert(left@ =~= raw@.take(i as int));
            assert(right@ =~= raw@.skip(i + d@.len()));
            let l2 = trim_end_chars(left.as_slice());
            let r2 = trim_start_chars(right.as_slice());
            if l2.len() > 0 && r2.len() > 0 {
                Some((l2, r2))
            } else {
                None
            }
        },
        None => None,
    }
}

fn split_wrapped(raw: &[char]) -> (r: Option<(Vec<char>, Vec<char>)>)
    ensures
        match r {
            Some((l, rr)) => split_wrapped_spec(raw@) == Some((l@, rr@)),
            None => split_wrapped_spec(raw@) is None,
        },
{
    let n = raw.len();
    if n == 0 {
        return None;
    }
    let last = raw[n - 1];
    let open = if last == ')' {
        '('
    } else if last == ']' {
        '['
    } else if last == '}' {
        '{'
    } else {
        return None;
    };
    match last_index_of(raw, open) {
        None => None,
        Some(start) => {
            proof {
                crate::paths::lemma_last_index_bounds(raw@, open);
            }
            assert(start < n - 1);
            let left_raw = sub_chars(raw, 0, start);
            assert(left_raw@ =~= raw@.take(start as int));
            let left = trim_end_chars(left_raw.as_slice());
            let inner = sub_chars(raw, start + 1, n - 1);
            let suffix = trim_chars(inner.as_slice());
            if left.len() == 0 || suffix.len() == 0 {
                None
            } else {
                Some((left, suffix))
            }
        },
    }
}

/// Title without its disc suffix, and the disc number the suffix names:
/// tried after the last ` - `, then inside a final bracketed part, then
/// after the last space.
pub open spec fn disc_suffix_spec(raw: Seq<char>) -> Option<(Seq<char>, u32)> {
    let t = trim(raw);
    let by_dash = match split_delim_spec(t, " - "@) {
        Some((l, r)) => match disc_number_spec(r) {
            Some(d) => Some((l, d)),
            None => None,
        },
        None => None,
    };
    let by_brackets = match split_wrapped_spec(t) {
        Some((l, r)) => match disc_number_spec(r) {
            Some(d) => Some((l, d)),
            None => None,
        },
        None => None,
    };
    let by_space = match split_delim_spec(t, " "@) {
        Some((l, r)) => match disc_number_spec(r) {
            Some(d) => Some((l, d)),
            None => None,
        },
        None => None,
    };
    if by_dash is Some {
        by_dash
    } else if by_brackets is Some {
        by_brackets
    } else {
        by_space
    }
}

fn disc_of(v: &Vec<char>) -> (r: Option<u32>)
    ensures
        r == disc_number_spec(v@),
{
    let s = string_from_chars(v.as_slice());
    parse_disc_number(s.as_str())
}

/// Splits a disc suffix off an album title.
pub fn extract_disc_suffix(raw: &str) -> (r: Option<(String, u32)>)
    ensures
        match r {
            Some((t, d)) => disc_suffix_spec(raw@) == Some((t@, d)),
            None => disc_suffix_spec(raw@) is None,
        },
{
    let c = chars_of(raw);
    let t = trim_chars(c.as_slice());
    if let Some((l, r)) = split_delim(t.as_slice(), " - ") {
        if let Some(d) = disc_of(&r) {
            return Some((string_from_chars(l.as_slice()), d));
        }
    }
    if let Some((l, r)) = split_wrapped(t.as_slice()) {
        if let Some(d) = disc_of(&r) {
            return Some((string_from_chars(l.as_slice()), d));
        }
    }
    if let Some((l, r)) = split_delim(t.as_slice(), " ") {
        if let Some(d) = disc_of(&r) {
            return Some((string_from_chars(l.as_slice()), d));
        }
    }
    None
}

/// Disc number named by the folder holding a file.
pub open spec fn disc_hint_spec(path: Seq<char>) -> Option<u32> {
    match parent_of(path) {
        Some(p) => match file_name_of(p) {
            Some(n) => disc_number_spec(n),
            None => None,
        },
        None => None,
    }
}

/// Reads a disc number from the name of a file's folder (`.../CD1/x.flac`).
pub fn disc_hint_from_path(path: &str) -> (r: Option<u32>)
    ensures
        r == disc_hint_spec(path@),
{
    let c = chars_of(path);
    match parent(c.as_slice()) {
        Some(p) => {
            let ps = string_from_chars(p.as_slice());
            match crate::paths::file_name(ps.as_str()) {
                Some(n) => parse_disc_number(n.as_str()),
                None => None,
            }
        },
        None => None,
    }
}

/// Where a normalized disc number came from.
pub open spec fn source_spec(tag_disc: Option<u32>, hint: Option<u32>) -> Option<Seq<char>> {
    if tag_disc is Some {
        Some("tag"@)
    } else if hint is Some {
        Some("folder"@)
    } else {
        None
    }
}

/// Album title, disc number and where the disc number came from, for a
/// file's album tag and disc tag: when the title carries a disc suffix and
/// the disc tag (or, without one, the folder name) names the same disc, the
/// suffix is dropped and the disc set; without a disc tag or matching
/// folder nothing changes.
pub open spec fn normalize_spec(path: Seq<char>, album: Option<Seq<char>>, disc: Option<u32>) -> (Option<Seq<char>>, Option<u32>, Option<Seq<char>>) {
    match album {
        None => (album, disc, None),
        Some(raw) => match disc_suffix_spec(raw) {
            None => (album, disc, None),
            Some((normalized, from_suffix)) => {
                let hint = disc_hint_spec(path);
                if disc is None && hint != Some(from_suffix) {
                    (album, disc, None)
                } else {
                    let d = if disc is None {
                        Some(from_suffix)
                    } else {
                        disc
                    };
                    (
                        if d == Some(from_suffix) {
                            Some(normalized)
                        } else {
                            album
                        },
                        d,
                        source_spec(disc, hint),
                    )
                }
            },
        },
    }
}

/// Normalizes an album title that carries a disc suffix.
pub fn normalize_album_and_disc(path: &str, album: &Option<String>, disc_number: Option<u32>) -> (r: (Option<String>, Option<u32>, Option<&'static str>))
    ensures
        (opt_string_view(r.0), r.1, crate::media::opt_str_view(r.2)) == normalize_spec(path@, opt_string_view(*album), disc_number),
{
    let original = match album {
        Some(a) => Some(a.clone()),
        None => None,
    };
    let raw = match album {
        Some(a) => a,
        None => {
            return (original, disc_number, None);
        },
    };
    let (normalized, from_suffix) = match extract_disc_suffix(raw.as_str()) {
        Some(x) => x,
        None => {
            return (original, disc_number, None);
        },
    };
    let hint = disc_hint_from_path(path);
    let mut disc = disc_number;
    if disc.is_none() {
        if hint != Some(from_suffix) {
            return (original, disc_number, None);
        }
        disc = Some(from_suffix);
    }
    let new_album = if disc == Some(from_suffix) {
        Some(normalized)
    } else {
        original
    };
    let source: Option<&'static str> = if disc_number.is_some() {
        Some("tag")
    } else if hint.is_some() {
        Some("folder")
    } else {
        None
    };
    proof {
        reveal_strlit("tag");
        reveal_strlit("folder");
    }
    (new_album, disc, source)
}

} // verus!
