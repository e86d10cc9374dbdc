//! `/`-separated file system paths held as strings.
//!
//! Components are separated by one or more `/`; a trailing `/` is ignored.
//! File names are read from the components, where `.` does not count; `..`
//! is not resolved, and a final `..` has no file name.

use vstd::prelude::*;
use crate::rootpaths::{comp_views, components, path_components};
use crate::strings::{chars_of, string_from_chars};
use crate::text::{chars_eq_str, sub_chars, trim_char_end, trim_end_char_chars};

verus! {

/// Index of the last `c` in `s`, if any.
pub open spec fn last_index(s: Seq<char>, c: char) -> Option<int>
    decreases s.len(),
{
    if s.len() == 0 {
        None
    } else if s.last() == c {
        Some(s.len() - 1)
    } else {
        last_index(s.drop_last(), c)
    }
}

pub proof fn lemma_last_index_bounds(s: Seq<char>, c: char)
    ensures
        last_index(s, c) matches Some(i) ==> 0 <= i < s.len() && s[i] == c && forall|k: int|
            i < k < s.len() ==> s[k] != c,
        last_index(s, c) is None ==> forall|k: int| 0 <= k < s.len() ==> s[k] != c,
    decreases s.len(),
{
    if s.len() > 0 && s.last() != c {
        let d = s.drop_last();
        lemma_last_index_bounds(d, c);
        assert forall|k: int| 0 <= k < d.len() implies d[k] == s[k] by {}
    }
}

/// Index of the last `c` in `v`.
pub fn last_index_of(v: &[char], c: char) -> (r: Option<usize>)
    ensures
        match r {
            Some(i) => last_index(v@, c) == Some(i as int),
            None => last_index(v@, c) is None,
        },
        r matches Some(i) ==> i < v.len(),
{
    proof {
        lemma_last_index_bounds(v@, c);
    }
    let mut j: usize = v.len();
    assert(v@.subrange(0, v@.len() as int) =~= v@);
    while j > 0
        invariant
            j <= v@.len(),
            last_index(v@, c) == last_index(v@.subrange(0, j as int), c),
        decreases j,
    {
        let ghost t = v@.subrange(0, j as int);
        if v[j - 1] == c {
            assert(t.last() == c);
            return Some(j - 1);
        }
        assert(t.drop_last() =~= v@.subrange(0, j - 1));
        j = j - 1;
    }
    None
}

/// File name of a path, read as its components (separators doubled or at
/// the end, and `.` components, do not count): its last component, unless
/// there is none or it is `..`.
pub open spec fn file_name_of(p: Seq<char>) -> Option<Seq<char>> {
    let cs = components(p);
    if cs.len() == 0 || cs.last() == ".."@ {
        None
    } else {
        Some(cs.last())
    }
}

/// File name as a character vector.
fn file_name_chars(p: &[char]) -> (r: Option<Vec<char>>)
    ensures
        match r {
            Some(v) => file_name_of(p@) == Some(v@),
            None => file_name_of(p@) is None,
        },
{
    let mut cs = path_components(p);
    if cs.len() == 0 {
        return None;
    }
    let ghost all = comp_views(cs@);
    let last = cs.pop().unwrap();
    proof {
        assert(all.last() == last@);
    }
    if chars_eq_str(last.as_slice(), "..") {
        None
    } else {
        Some(last)
    }
}

/// File name of a path (`"/music/track.flac"` gives `track.flac`,
/// `"/music/."` gives `music`, `"/"` gives none).
pub fn file_name(path: &str) -> (r: Option<String>)
    ensures
        crate::tags::opt_string_view(r) == file_name_of(path@),
{
    let p = chars_of(path);
    match file_name_chars(p.as_slice()) {
        Some(n) => Some(string_from_chars(n.as_slice())),
        None => None,
    }
}

/// Title shown for a track being played: its file name.
pub fn title_from_path(path: &str) -> (r: Option<String>)
    ensures
        crate::tags::opt_string_view(r) == file_name_of(path@),
{
    file_name(path)
}

/// Parent of a path: everything before its last component, without
/// trailing `/` (but `/` itself for a top-level entry); none for the empty
/// path and the root.
pub open spec fn parent_of(p: Seq<char>) -> Option<Seq<char>> {
    let t = trim_char_end(p, '/');
    if t.len() == 0 {
        None
    } else {
        match last_index(t, '/') {
            None => Some(Seq::empty()),
            Some(i) => {
                let head = trim_char_end(t.subrange(0, i + 1), '/');
                if head.len() == 0 {
                    Some(seq!['/'])
                } else {
                    Some(head)
                }
            },
        }
    }
}

/// Parent directory of a path (`"/music/a.flac"` gives `/music`).
pub fn parent(path: &[char]) -> (r: Option<Vec<char>>)
    ensures
        match r {
            Some(v) => parent_of(path@) == Some(v@),
            None => parent_of(path@) is None,
        },
{
    let t = trim_end_char_chars(path, '/');
    if t.len() == 0 {
        return None;
    }
    match last_index_of(t.as_slice(), '/') {
        None => Some(Vec::new()),
        Some(i) => {
            proof {
                lemma_last_index_bounds(t@, '/');
            }
            let head_all = sub_chars(t.as_slice(), 0, i + 1);
            let head = trim_end_char_chars(head_all.as_slice(), '/');
            if head.len() == 0 {
                let mut root: Vec<char> = Vec::new();
                root.push('/');
                assert(root@ =~= seq!['/']);
                Some(root)
            } else {
                Some(head)
            }
        },
    }
}

/// Extension of a path: what follows the last `.` of its file name, when
/// that dot is not the file name's first character.
pub open spec fn extension_of(p: Seq<char>) -> Option<Seq<char>> {
    match file_name_of(p) {
        None => None,
        Some(n) => match last_index(n, '.') {
            Some(i) => if i > 0 {
                Some(n.subrange(i + 1, n.len() as int))
            } else {
                None
            },
            None => None,
        },
    }
}

/// Extension of a path (`"/music/a.FLAC"` gives `FLAC`).
pub fn extension(path: &[char]) -> (r: Option<Vec<char>>)
    ensures
        match r {
            Some(v) => extension_of(path@) == Some(v@),
            None => extension_of(path@) is None,
        },
{
    let n = match file_name_chars(path) {
        Some(n) => n,
        None => {
            return None;
        },
    };
    match last_index_of(n.as_slice(), '.') {
        Some(i) => {
            proof {
                lemma_last_index_bounds(n@, '.');
            }
            if i > 0 {
                Some(sub_chars(n.as_slice(), i + 1, n.len()))
            } else {
                None
            }
        },
        None => None,
    }
}

/// `base` joined with `rest`: `rest` itself when it is absolute, otherwise
/// `base`, a `/` unless `base` is empty or already ends in one, then `rest`.
pub open spec fn join_spec(base: Seq<char>, rest: Seq<char>) -> Seq<char> {
    if rest.len() > 0 && rest[0] == '/' {
        rest
    } else if base.len() == 0 || base.last() == '/' {
        base + rest
    } else {
        base + seq!['/'] + rest
    }
}

/// Joins two paths.
pub fn join(base: &[char], rest: &[char]) -> (r: Vec<char>)
    ensures
        r@ == join_spec(base@, rest@),
{
    if rest.len() > 0 && rest[0] == '/' {
        return sub_chars(rest, 0, rest.len());
    }
    let mut out = sub_chars(base, 0, base.len());
    if !(base.len() == 0 || base[base.len() - 1] == '/') {
        out.push('/');
    }
    let mut i: usize = 0;
    let ghost start = out@;
    while i < rest.len()
        invariant
            i <= rest@.len(),
            out@ == start + rest@.take(i as int),
        decreases rest@.len() - i,
    {
        out.push(rest[i]);
        assert(rest@.take(i + 1) =~= rest@.take(i as int).push(rest@[i as int]));
        i = i + 1;
    }
    assert(rest@.take(rest@.len() as int) =~= rest@);
    assert(base@.subrange(0, base@.len() as int) =~= base@);
    out
}

} // verus!
