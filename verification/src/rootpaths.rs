//! Paths relative to the media root: component-wise prefix tests, the
//! relative form stored in the database, and the checks made on a path
//! resolved on disk.
//!
//! A path is read as its components: the pieces between `/` separators,
//! without empty pieces and without `.`; an absolute path starts with `/`.

use vstd::prelude::*;
use crate::paths::{join, join_spec};
use crate::strings::{chars_of, string_from_chars};
use crate::text::chars_eq;

verus! {

/// The pieces of a path between `/` separators, empty ones included.
pub open spec fn split_parts(p: Seq<char>) -> Seq<Seq<char>>
    decreases p.len(),
{
    if p.len() == 0 {
        seq![Seq::empty()]
    } else {
        let parts = split_parts(p.drop_last());
        if p.last() == '/' {
            parts.push(Seq::empty())
        } else {
            parts.update(parts.len() - 1, parts.last().push(p.last()))
        }
    }
}

/// A piece that names something: neither empty nor `.`.
pub open spec fn is_component(s: Seq<char>) -> bool {
    s.len() > 0 && s != seq!['.']
}

/// The pieces that are components, in order.
pub open spec fn keep_components(parts: Seq<Seq<char>>) -> Seq<Seq<char>>
    decreases parts.len(),
{
    if parts.len() == 0 {
        Seq::empty()
    } else {
        let k = keep_components(parts.drop_last());
        if is_component(parts.last()) {
            k.push(parts.last())
        } else {
            k
        }
    }
}

/// The components of a path.
pub open spec fn components(p: Seq<char>) -> Seq<Seq<char>> {
    keep_components(split_parts(p))
}

/// An absolute path starts with `/`.
pub open spec fn is_absolute_spec(p: Seq<char>) -> bool {
    p.len() > 0 && p[0] == '/'
}

/// Components joined with `/`.
pub open spec fn join_components(cs: Seq<Seq<char>>) -> Seq<char>
    decreases cs.len(),
{
    if cs.len() == 0 {
        Seq::empty()
    } else if cs.len() == 1 {
        cs[0]
    } else {
        join_components(cs.drop_last()) + seq!['/'] + cs.last()
    }
}

/// `path` without the leading components of `root`, when `root` is a
/// component-wise prefix of it (both absolute or both relative).
pub open spec fn strip_root_spec(path: Seq<char>, root: Seq<char>) -> Option<Seq<char>> {
    let pc = components(path);
    let rc = components(root);
    if is_absolute_spec(path) == is_absolute_spec(root) && rc.is_prefix_of(pc) {
        Some(join_components(pc.skip(rc.len() as int)))
    } else {
        None
    }
}

/// `path` lies under `root`, component-wise.
pub open spec fn under_root(path: Seq<char>, root: Seq<char>) -> bool {
    strip_root_spec(path, root) is Some
}

/// Index of the last component equal to `name`.
pub open spec fn last_match(cs: Seq<Seq<char>>, name: Seq<char>) -> Option<int>
    decreases cs.len(),
{
    if cs.len() == 0 {
        None
    } else if cs.last() == name {
        Some(cs.len() - 1)
    } else {
        last_match(cs.drop_last(), name)
    }
}

/// For a path stored under another mount of the library: what follows the
/// last component named like the root's final component, when anything
/// does.
pub open spec fn root_name_candidate_spec(path: Seq<char>, root: Seq<char>) -> Option<Seq<char>> {
    let rc = components(root);
    let pc = components(path);
    if rc.len() == 0 || rc.last() == seq!['.', '.'] {
        None
    } else {
        match last_match(pc, rc.last()) {
            None => None,
            Some(i) => if i + 1 < pc.len() {
                Some(join_components(pc.skip(i + 1)))
            } else {
                None
            },
        }
    }
}

/// The relative form of an absolute path: its part under the root, else
/// the part after the root's name when that file exists under the root.
pub open spec fn relative_spec(path: Seq<char>, root: Seq<char>, candidate_exists: bool) -> Option<Seq<char>> {
    match strip_root_spec(path, root) {
        Some(r) => Some(r),
        None => if candidate_exists {
            root_name_candidate_spec(path, root)
        } else {
            None
        },
    }
}

/// The path stored in the database: relative to the media root when it
/// can be, else as given.
pub open spec fn path_to_db_spec(root: Option<Seq<char>>, path: Seq<char>, candidate_exists: bool) -> Seq<char> {
    match root {
        None => path,
        Some(r) => if !is_absolute_spec(path) {
            path
        } else {
            match relative_spec(path, r, candidate_exists) {
                Some(rel) => rel,
                None => path,
            }
        },
    }
}

/// The path handed out for a stored one: joined to the media root when
/// relative.
pub open spec fn path_from_db_spec(root: Option<Seq<char>>, path: Seq<char>) -> Seq<char> {
    match root {
        None => path,
        Some(r) => if is_absolute_spec(path) {
            path
        } else {
            join_spec(r, path)
        },
    }
}

proof fn lemma_last_match(cs: Seq<Seq<char>>, name: Seq<char>)
    ensures
        last_match(cs, name) matches Some(i) ==> 0 <= i < cs.len() && cs[i] == name,
    decreases cs.len(),
{
    if cs.len() > 0 && cs.last() != name {
        lemma_last_match(cs.drop_last(), name);
    }
}

proof fn lemma_split_parts_len(p: Seq<char>)
    ensures
        split_parts(p).len() >= 1,
    decreases p.len(),
{
    if p.len() > 0 {
        lemma_split_parts_len(p.drop_last());
    }
}

/// Whether a path is absolute.
pub fn is_absolute(p: &str) -> (r: bool)
    ensures
        r == is_absolute_spec(p@),
{
    let c = chars_of(p);
    c.len() > 0 && c[0] == '/'
}

/// The views of component vectors.
pub open spec fn comp_views(v: Seq<Vec<char>>) -> Seq<Seq<char>> {
    v.map_values(|c: Vec<char>| c@)
}

/// Splits a path into its components.
pub fn path_components(p: &[char]) -> (r: Vec<Vec<char>>)
    ensures
        comp_views(r@) == components(p@),
{
    let mut comps: Vec<Vec<char>> = Vec::new();
    let mut cur: Vec<char> = Vec::new();
    let ghost mut done: Seq<Seq<char>> = Seq::empty();
    let mut i: usize = 0;
    assert(p@.take(0) =~= Seq::<char>::empty());
    assert(comp_views(comps@) =~= Seq::<Seq<char>>::empty());
    while i < p.len()
        invariant
            i <= p@.len(),
            split_parts(p@.take(i as int)) == done.push(cur@),
            comp_views(comps@) == keep_components(done),
        decreases p@.len() - i,
    {
        let ghost t = p@.take(i + 1);
        assert(t.drop_last() =~= p@.take(i as int));
        assert(t.last() == p@[i as int]);
        if p[i] == '/' {
            let is_comp = cur.len() > 0 && !(cur.len() == 1 && cur[0] == '.');
            proof {
                if cur@ == seq!['.'] {
                    assert(cur@.len() == 1 && cur@[0] == '.');
                }
                if cur@.len() == 1 && cur@[0] == '.' {
                    assert(cur@ =~= seq!['.']);
                }
                assert(is_comp == is_component(cur@));
                assert(done.push(cur@).drop_last() =~= done);
            }
            let ghost before = comp_views(comps@);
            let ghost cv = cur@;
            if is_comp {
                let mut fresh: Vec<char> = Vec::new();
                std::mem::swap(&mut fresh, &mut cur);
                comps.push(fresh);
                proof {
                    assert(comp_views(comps@) =~= before.push(cv));
                }
            } else {
                cur = Vec::new();
            }
            proof {
                done = done.push(cv);
                assert(done.push(cur@) =~= split_parts(p@.take(i as int)).push(Seq::empty()));
            }
        } else {
            let ghost old_cur = cur@;
            cur.push(p[i]);
            proof {
                let parts = split_parts(p@.take(i as int));
                assert(parts.last() == old_cur);
                assert(done.push(cur@) =~= parts.update(parts.len() - 1, parts.last().push(p@[i as int])));
            }
        }
        i = i + 1;
    }
    assert(p@.take(p@.len() as int) =~= p@);
    let ghost before = comp_views(comps@);
    let ghost cv = cur@;
    let is_comp = cur.len() > 0 && !(cur.len() == 1 && cur[0] == '.');
    proof {
        if cur@ == seq!['.'] {
            assert(cur@.len() == 1 && cur@[0] == '.');
        }
        if cur@.len() == 1 && cur@[0] == '.' {
            assert(cur@ =~= seq!['.']);
        }
        assert(done.push(cv).drop_last() =~= done);
    }
    if is_comp {
        comps.push(cur);
        proof {
            assert(comp_views(comps@) =~= before.push(cv));
        }
    }
    comps
}

fn join_comp_vecs(cs: &Vec<Vec<char>>, from: usize) -> (r: Vec<char>)
    requires
        from <= cs@.len(),
    ensures
        r@ == join_components(comp_views(cs@).skip(from as int)),
{
    let mut out: Vec<char> = Vec::new();
    let mut i: usize = from;
    assert(comp_views(cs@).skip(from as int).take(0) =~= Seq::<Seq<char>>::empty());
    while i < cs.len()
        invariant
            from <= i <= cs@.len(),
            out@ == join_components(comp_views(cs@).skip(from as int).take(i - from)),
        decreases cs@.len() - i,
    {
        let ghost s = comp_views(cs@).skip(from as int);
        let ghost before = out@;
        if i > from {
            out.push('/');
        }
        crate::text::push_chars(&mut out, cs[i].as_slice());
        proof {
            let t = s.take(i + 1 - from);
            assert(t.drop_last() =~= s.take(i - from));
            assert(t.last() == cs@[i as int]@);
            if i == from {
                assert(out@ =~= t[0]);
            } else {
                assert(out@ =~= before + seq!['/'] + t.last());
            }
        }
        i = i + 1;
    }
    assert(comp_views(cs@).skip(from as int).take(cs@.len() - from) =~= comp_views(cs@).skip(from as int));
    out
}

fn comps_prefix(a: &Vec<Vec<char>>, b: &Vec<Vec<char>>) -> (r: bool)
    ensures
        r == comp_views(a@).is_prefix_of(comp_views(b@)),
{
    if a.len() > b.len() {
        return false;
    }
    let mut i: usize = 0;
    while i < a.len()
        invariant
            i <= a@.len() <= b@.len(),
            forall|j: int| 0 <= j < i ==> a@[j]@ == b@[j]@,
        decreases a@.len() - i,
    {
        if !chars_eq(a[i].as_slice(), b[i].as_slice()) {
            assert(comp_views(a@)[i as int] != comp_views(b@)[i as int]);
            return false;
        }
        i = i + 1;
    }
    assert(comp_views(b@).take(a@.len() as int) =~= comp_views(a@));
    true
}

/// `path` without the components of `root` in front of it.
pub fn strip_root(path: &str, root: &str) -> (r: Option<String>)
    ensures
        opt_view(r) == strip_root_spec(path@, root@),
{
    let pc = path_components(chars_of(path).as_slice());
    let rc = path_components(chars_of(root).as_slice());
    if is_absolute(path) == is_absolute(root) && comps_prefix(&rc, &pc) {
        let rest = join_comp_vecs(&pc, rc.len());
        Some(string_from_chars(rest.as_slice()))
    } else {
        None
    }
}

/// Views of optional strings.
pub open spec fn opt_view(o: Option<String>) -> Option<Seq<char>> {
    match o {
        Some(s) => Some(s@),
        None => None,
    }
}

/// Whether `path` lies under `root`, component-wise.
pub fn starts_with_root(path: &str, root: &str) -> (r: bool)
    ensures
        r == under_root(path@, root@),
{
    strip_root(path, root).is_some()
}

fn last_match_index(cs: &Vec<Vec<char>>, name: &[char]) -> (r: Option<usize>)
    ensures
        match last_match(comp_views(cs@), name@) {
            Some(i) => r == Some(i as usize),
            None => r is None,
        },
{
    let mut i: usize = cs.len();
    assert(comp_views(cs@).take(cs@.len() as int) =~= comp_views(cs@));
    while i > 0
        invariant
            i <= cs@.len(),
            last_match(comp_views(cs@), name@) == last_match(comp_views(cs@).take(i as int), name@),
        decreases i,
    {
        let ghost t = comp_views(cs@).take(i as int);
        assert(t.last() == cs@[i - 1]@);
        assert(t.drop_last() =~= comp_views(cs@).take(i - 1));
        if chars_eq(cs[i - 1].as_slice(), name) {
            return Some(i - 1);
        }
        i = i - 1;
    }
    None
}

/// What follows the last component named like the root's final one.
pub fn root_name_candidate(path: &str, root: &str) -> (r: Option<String>)
    ensures
        opt_view(r) == root_name_candidate_spec(path@, root@),
{
    let pc = path_components(chars_of(path).as_slice());
    let rc = path_components(chars_of(root).as_slice());
    if rc.len() == 0 {
        assert(comp_views(rc@).len() == 0);
        return None;
    }
    let name = &rc[rc.len() - 1];
    assert(comp_views(rc@).last() == name@);
    let is_parent = name.len() == 2 && name[0] == '.' && name[1] == '.';
    proof {
        if name@ == seq!['.', '.'] {
            assert(name@.len() == 2 && name@[0] == '.' && name@[1] == '.');
        }
        if is_parent {
            assert(name@ =~= seq!['.', '.']);
        }
    }
    if is_parent {
        return None;
    }
    proof {
        lemma_last_match(comp_views(pc@), name@);
    }
    match last_match_index(&pc, name.as_slice()) {
        None => None,
        Some(i) => {
            if i < pc.len() - 1 {
                let rest = join_comp_vecs(&pc, i + 1);
                Some(string_from_chars(rest.as_slice()))
            } else {
                None
            }
        },
    }
}

/// The relative form of an absolute path; `candidate_exists` tells
/// whether the file named by the root-name candidate exists under the
/// root.
pub fn relative_from_absolute(path: &str, root: &str, candidate_exists: bool) -> (r: Option<String>)
    ensures
        opt_view(r) == relative_spec(path@, root@, candidate_exists),
{
    match strip_root(path, root) {
        Some(r) => Some(r),
        None => if candidate_exists {
            root_name_candidate(path, root)
        } else {
            None
        },
    }
}

/// The form in which a track path is stored.
pub fn path_to_db(root: Option<&str>, path: &str, candidate_exists: bool) -> (r: String)
    ensures
        r@ == path_to_db_spec(crate::media::opt_str_view(root), path@, candidate_exists),
{
    match root {
        None => path.to_string(),
        Some(rt) => {
            if !is_absolute(path) {
                return path.to_string();
            }
            match relative_from_absolute(path, rt, candidate_exists) {
                Some(rel) => rel,
                None => path.to_string(),
            }
        },
    }
}

/// The form in which a stored track path is handed out.
pub fn path_from_db(root: Option<&str>, path: String) -> (r: String)
    ensures
        r@ == path_from_db_spec(crate::media::opt_str_view(root), path@),
{
    match root {
        None => path,
        Some(rt) => {
            if is_absolute(path.as_str()) {
                return path;
            }
            let j = join(chars_of(rt).as_slice(), chars_of(path.as_str()).as_slice());
            string_from_chars(j.as_slice())
        },
    }
}

/// The new stored path of a legacy absolute one, when it changes.
pub fn migration_target(existing: &str, root: &str, candidate_exists: bool) -> (r: Option<String>)
    ensures
        opt_view(r) == (if !is_absolute_spec(existing@) {
            None
        } else {
            match relative_spec(existing@, root@, candidate_exists) {
                Some(rel) => if rel != existing@ {
                    Some(rel)
                } else {
                    None
                },
                None => None,
            }
        }),
{
    if !is_absolute(existing) {
        return None;
    }
    match relative_from_absolute(existing, root, candidate_exists) {
        Some(rel) => {
            if crate::text::str_eq(rel.as_str(), existing) {
                None
            } else {
                Some(rel)
            }
        },
        None => None,
    }
}

/// The path to resolve on disk for a requested one: as given when
/// absolute, else under the root.
pub fn candidate_path(root: &str, raw: &str) -> (r: String)
    ensures
        r@ == join_spec(root@, raw@),
{
    let j = join(chars_of(root).as_slice(), chars_of(raw).as_slice());
    string_from_chars(j.as_slice())
}

/// Why a requested track path is refused.
#[derive(Debug, Clone, Copy, PartialEq, Eq, Structural)]
pub enum TrackPathError {
    /// Nothing is there, or it is not a file (404).
    NotFound,
    /// It resolves outside the library root (400).
    OutsideRoot,
}

/// Checks a track path resolved on disk: `canonical` is what the
/// candidate path resolved to (`None` when it does not exist), `is_file`
/// whether that is a regular file.
pub fn check_track_path(root: &str, canonical: Option<String>, is_file: bool) -> (r: Result<String, TrackPathError>)
    ensures
        match canonical {
            None => r == Err::<String, TrackPathError>(TrackPathError::NotFound),
            Some(c) => if !under_root(c@, root@) {
                r == Err::<String, TrackPathError>(TrackPathError::OutsideRoot)
            } else if !is_file {
                r == Err::<String, TrackPathError>(TrackPathError::NotFound)
            } else {
                r matches Ok(p) && p@ == c@
            },
        },
{
    match canonical {
        None => Err(TrackPathError::NotFound),
        Some(c) => {
            if !starts_with_root(c.as_str(), root) {
                Err(TrackPathError::OutsideRoot)
            } else if !is_file {
                Err(TrackPathError::NotFound)
            } else {
                Ok(c)
            }
        },
    }
}

/// Why a path for the queue or for playback is refused (both 400).
#[derive(Debug, Clone, Copy, PartialEq, Eq, Structural)]
pub enum UnderRootError {
    /// The path does not exist.
    Missing,
    /// It resolves outside the library root.
    Outside,
}

/// Checks a path resolved on disk for playback: `canonical` is what the
/// candidate path resolved to, `None` when it does not exist.
pub fn check_under_root(root: &str, canonical: Option<String>) -> (r: Result<String, UnderRootError>)
    ensures
        match canonical {
            None => r == Err::<String, UnderRootError>(UnderRootError::Missing),
            Some(c) => if under_root(c@, root@) {
                r matches Ok(p) && p@ == c@
            } else {
                r == Err::<String, UnderRootError>(UnderRootError::Outside)
            },
        },
{
    match canonical {
        None => Err(UnderRootError::Missing),
        Some(c) => {
            if starts_with_root(c.as_str(), root) {
                Ok(c)
            } else {
                Err(UnderRootError::Outside)
            }
        },
    }
}

/// The resolved paths that may be queued, in order: those that exist and
/// lie under the root.
pub open spec fn queueable(root: Seq<char>, resolved: Seq<Option<String>>) -> Seq<Seq<char>>
    decreases resolved.len(),
{
    if resolved.len() == 0 {
        Seq::empty()
    } else {
        let rest = queueable(root, resolved.drop_last());
        match resolved.last() {
            Some(c) => if under_root(c@, root) {
                rest.push(c@)
            } else {
                rest
            },
            None => rest,
        }
    }
}

/// Keeps the paths that may be queued: `resolved` holds what each
/// requested path resolved to on disk, `None` where it does not exist.
pub fn keep_under_root(root: &str, resolved: Vec<Option<String>>) -> (r: Vec<String>)
    ensures
        crate::playqueue::string_views(r@) == queueable(root@, resolved@),
{
    let mut out: Vec<String> = Vec::new();
    let n = resolved.len();
    let mut i: usize = 0;
    while i < n
        invariant
            n == resolved@.len(),
            i <= n,
            crate::playqueue::string_views(out@) == queueable(root@, resolved@.take(i as int)),
        decreases n - i,
    {
        let ghost t = resolved@.take(i + 1);
        assert(t.drop_last() =~= resolved@.take(i as int));
        assert(t.last() == resolved@[i as int]);
        let c = resolved[i].clone();
        match check_under_root(root, c) {
            Ok(p) => {
                let ghost before = out@;
                out.push(p);
                proof {
                    crate::playqueue::lemma_views_push(before, out@.last());
                    assert(out@ == before.push(out@.last()));
                }
            },
            Err(_) => {},
        }
        i = i + 1;
    }
    assert(resolved@.take(n as int) =~= resolved@);
    out
}

/// A text without `/`.
pub open spec fn no_slash(s: Seq<char>) -> bool {
    forall|i: int| 0 <= i < s.len() ==> s[i] != '/'
}

proof fn lemma_split_parts_no_slash(p: Seq<char>)
    ensures
        forall|i: int| 0 <= i < split_parts(p).len() ==> no_slash(#[trigger] split_parts(p)[i]),
    decreases p.len(),
{
    lemma_split_parts_len(p);
    if p.len() > 0 {
        let q = p.drop_last();
        lemma_split_parts_no_slash(q);
        lemma_split_parts_len(q);
        let parts = split_parts(q);
        if p.last() == '/' {
            assert forall|i: int| 0 <= i < split_parts(p).len() implies no_slash(#[trigger] split_parts(p)[i]) by {
                if i < parts.len() {
                    assert(split_parts(p)[i] == parts[i]);
                }
            }
        } else {
            let l = parts.last().push(p.last());
            assert(no_slash(parts.last()));
            assert(no_slash(l)) by {
                assert forall|k: int| 0 <= k < l.len() implies l[k] != '/' by {
                    if k < parts.last().len() {
                        assert(l[k] == parts.last()[k]);
                    }
                }
            }
            assert forall|i: int| 0 <= i < split_parts(p).len() implies no_slash(#[trigger] split_parts(p)[i]) by {
                if i < parts.len() - 1 {
                    assert(split_parts(p)[i] == parts[i]);
                }
            }
        }
    }
}

proof fn lemma_keep_components(parts: Seq<Seq<char>>)
    requires
        forall|i: int| 0 <= i < parts.len() ==> no_slash(#[trigger] parts[i]),
    ensures
        forall|i: int|
            0 <= i < keep_components(parts).len() ==> no_slash(#[trigger] keep_components(parts)[i])
                && keep_components(parts)[i].len() > 0,
    decreases parts.len(),
{
    if parts.len() > 0 {
        let q = parts.drop_last();
        assert forall|i: int| 0 <= i < q.len() implies no_slash(#[trigger] q[i]) by {
            assert(q[i] == parts[i]);
        }
        lemma_keep_components(q);
        let k = keep_components(q);
        if is_component(parts.last()) {
            assert(no_slash(parts[parts.len() - 1]));
            assert forall|i: int| 0 <= i < k.push(parts.last()).len() implies no_slash(#[trigger] k.push(parts.last())[i])
                && k.push(parts.last())[i].len() > 0 by {
                if i < k.len() {
                    assert(k.push(parts.last())[i] == k[i]);
                }
            }
        }
    }
}

/// Each component is a non-empty text without `/`.
pub proof fn lemma_components(p: Seq<char>)
    ensures
        forall|i: int|
            0 <= i < components(p).len() ==> no_slash(#[trigger] components(p)[i]) && components(p)[i].len() > 0,
{
    lemma_split_parts_no_slash(p);
    lemma_keep_components(split_parts(p));
}

proof fn lemma_join_concat(a: Seq<Seq<char>>, b: Seq<Seq<char>>)
    requires
        a.len() > 0,
        b.len() > 0,
    ensures
        join_components(a + b) == join_components(a) + seq!['/'] + join_components(b),
    decreases b.len(),
{
    let ab = a + b;
    assert(ab.drop_last() =~= a + b.drop_last());
    assert(ab.last() == b.last());
    if b.len() == 1 {
        assert(b.drop_last() =~= Seq::<Seq<char>>::empty());
        assert(ab.drop_last() =~= a);
        assert(join_components(b) == b[0]);
    } else {
        lemma_join_concat(a, b.drop_last());
        assert(join_components(ab) == join_components(a + b.drop_last()) + seq!['/'] + b.last());
        assert(join_components(b) == join_components(b.drop_last()) + seq!['/'] + b.last());
        assert(join_components(ab) =~= join_components(a) + seq!['/'] + join_components(b));
    }
}

proof fn lemma_join_ends(cs: Seq<Seq<char>>)
    requires
        cs.len() > 0,
        forall|i: int| 0 <= i < cs.len() ==> (#[trigger] cs[i]).len() > 0,
    ensures
        join_components(cs).len() > 0,
        join_components(cs)[0] == cs[0][0],
        join_components(cs).last() == cs.last().last(),
    decreases cs.len(),
{
    if cs.len() > 1 {
        let d = cs.drop_last();
        assert forall|i: int| 0 <= i < d.len() implies (#[trigger] d[i]).len() > 0 by {
            assert(d[i] == cs[i]);
        }
        lemma_join_ends(d);
        assert(cs.last().len() > 0);
        let j = join_components(d) + seq!['/'] + cs.last();
        assert(j[0] == join_components(d)[0]);
        assert(j.last() == cs.last().last());
    } else {
        assert(cs[0].len() > 0);
    }
}

/// A path written plainly: `/` and its components joined by `/`.
pub open spec fn canonical_abs(p: Seq<char>) -> bool {
    p == seq!['/'] + join_components(components(p))
}

/// What the database stores for a file under the media root gives the
/// file back: for plainly written paths strictly under a plainly written
/// root, the stored relative path joined to the root is the path.
pub proof fn law_db_path_roundtrip(root: Seq<char>, path: Seq<char>, candidate_exists: bool)
    requires
        canonical_abs(root),
        canonical_abs(path),
        components(root).len() > 0,
        components(root).is_prefix_of(components(path)),
        components(path).len() > components(root).len(),
    ensures
        path_from_db_spec(Some(root), path_to_db_spec(Some(root), path, candidate_exists)) == path,
{
    let rc = components(root);
    let pc = components(path);
    let k = rc.len() as int;
    let rest = pc.skip(k);
    let rel = join_components(rest);
    assert(is_absolute_spec(root));
    assert(is_absolute_spec(path));
    assert(strip_root_spec(path, root) == Some(rel));
    assert(path_to_db_spec(Some(root), path, candidate_exists) == rel);
    lemma_components(root);
    lemma_components(path);
    assert forall|i: int| 0 <= i < rest.len() implies (#[trigger] rest[i]).len() > 0 && no_slash(rest[i]) by {
        assert(rest[i] == pc[i + k]);
    }
    lemma_join_ends(rest);
    assert(no_slash(rest[0]));
    assert(rel[0] == rest[0][0]);
    assert(rel[0] != '/');
    assert(!is_absolute_spec(rel));
    lemma_join_ends(rc);
    assert(no_slash(rc.last()));
    assert(root.last() == join_components(rc).last());
    assert(root.last() != '/');
    assert(join_spec(root, rel) == root + seq!['/'] + rel);
    assert(pc.take(k) =~= rc);
    assert(rc + rest =~= pc);
    lemma_join_concat(rc, rest);
    assert(root + seq!['/'] + rel =~= seq!['/'] + join_components(pc));
}

/// A relative path that starts with the current directory: `.` alone or
/// followed by `/`.
pub open spec fn starts_with_cur_dir(p: Seq<char>) -> bool {
    !is_absolute_spec(p) && p.len() > 0 && p[0] == '.' && (p.len() == 1 || p[1] == '/')
}

/// The text a path is compared by: `/` for an absolute path, or `.` for one
/// that starts with the current directory, then its components joined by
/// `/`. Doubled or trailing separators and `.` components after the first
/// do not count, as in path equality.
pub open spec fn key_from(abs: bool, cur: bool, cs: Seq<Seq<char>>) -> Seq<char> {
    if abs {
        seq!['/'] + join_components(cs)
    } else if cur {
        if cs.len() == 0 {
            seq!['.']
        } else {
            seq!['.', '/'] + join_components(cs)
        }
    } else {
        join_components(cs)
    }
}

/// The key of a path.
pub open spec fn path_key_spec(p: Seq<char>) -> Seq<char> {
    key_from(is_absolute_spec(p), starts_with_cur_dir(p), components(p))
}

/// The key of a path's parent: the path without its last component; a
/// path that is only the current directory has the empty path as parent;
/// the root and the empty path have none.
pub open spec fn parent_key_spec(p: Seq<char>) -> Option<Seq<char>> {
    let cs = components(p);
    if cs.len() > 0 {
        Some(key_from(is_absolute_spec(p), starts_with_cur_dir(p), cs.drop_last()))
    } else if starts_with_cur_dir(p) {
        Some(Seq::empty())
    } else {
        None
    }
}

fn join_first(cs: &Vec<Vec<char>>, n: usize) -> (r: Vec<char>)
    requires
        n <= cs@.len(),
    ensures
        r@ == join_components(comp_views(cs@).take(n as int)),
{
    let mut out: Vec<char> = Vec::new();
    let mut i: usize = 0;
    assert(comp_views(cs@).take(0) =~= Seq::<Seq<char>>::empty());
    while i < n
        invariant
            i <= n <= cs@.len(),
            out@ == join_components(comp_views(cs@).take(i as int)),
        decreases n - i,
    {
        let ghost before = out@;
        if i > 0 {
            out.push('/');
        }
        crate::text::push_chars(&mut out, cs[i].as_slice());
        proof {
            let t = comp_views(cs@).take(i + 1);
            assert(t.drop_last() =~= comp_views(cs@).take(i as int));
            assert(t.last() == cs@[i as int]@);
            if i == 0 {
                assert(out@ =~= t[0]);
            } else {
                assert(out@ =~= before + seq!['/'] + t.last());
            }
        }
        i = i + 1;
    }
    out
}

fn key_text(abs: bool, cur: bool, cs: &Vec<Vec<char>>, n: usize) -> (r: String)
    requires
        n <= cs@.len(),
    ensures
        r@ == key_from(abs, cur, comp_views(cs@).take(n as int)),
{
    let joined = join_first(cs, n);
    let mut out: Vec<char> = Vec::new();
    if abs {
        out.push('/');
    } else if cur {
        out.push('.');
        if n > 0 {
            out.push('/');
        }
    }
    crate::text::push_chars(&mut out, joined.as_slice());
    proof {
        if abs {
            assert(out@ =~= seq!['/'] + joined@);
        } else if cur {
            if n > 0 {
                assert(out@ =~= seq!['.', '/'] + joined@);
            } else {
                assert(joined@ =~= Seq::<char>::empty());
                assert(out@ =~= seq!['.']);
            }
        } else {
            assert(out@ =~= joined@);
        }
    }
    string_from_chars(out.as_slice())
}

fn cur_dir_start(c: &Vec<char>) -> (r: bool)
    ensures
        r == starts_with_cur_dir(c@),
{
    c.len() > 0 && c[0] != '/' && c[0] == '.' && (c.len() == 1 || c[1] == '/')
}

/// The key a path is compared by.
pub fn path_key(p: &str) -> (r: String)
    ensures
        r@ == path_key_spec(p@),
{
    let c = chars_of(p);
    let cs = path_components(c.as_slice());
    let abs = c.len() > 0 && c[0] == '/';
    let cur = cur_dir_start(&c);
    proof {
        assert(comp_views(cs@).take(cs@.len() as int) =~= comp_views(cs@));
    }
    key_text(abs, cur, &cs, cs.len())
}

/// The key of a path's parent, if it has one.
pub fn parent_key(p: &str) -> (r: Option<String>)
    ensures
        opt_view(r) == parent_key_spec(p@),
{
    let c = chars_of(p);
    let cs = path_components(c.as_slice());
    let abs = c.len() > 0 && c[0] == '/';
    let cur = cur_dir_start(&c);
    if cs.len() > 0 {
        proof {
            assert(comp_views(cs@).take(cs@.len() - 1) =~= comp_views(cs@).drop_last());
        }
        Some(key_text(abs, cur, &cs, cs.len() - 1))
    } else if cur {
        Some(String::new())
    } else {
        None
    }
}

} // verus!
