//! MusicBrainz search queries, title fallbacks and the choice of a match
//! among search results.

use vstd::prelude::*;
use crate::strings::{chars_of, string_from_chars, to_lowercase, unicode_lowercase};
use crate::tags::{i32_tag, opt_string_view, parse_year};
use crate::order::{sort_by_key_desc, sorted_desc};
use crate::text::{char_is_ws, chars_eq_ignore_case, eq_ignore_case, find, find_chars, is_ws, push_chars, push_str_chars, sub_chars, trim, trim_chars};

verus! {

/// Minimum search score for a recording to count as a match.
pub const MIN_MATCH_SCORE: i32 = 90;

/// Artist credit of a search result.
#[derive(Debug, Clone)]
pub struct ArtistCredit {
    pub artist: ArtistSummary,
}

/// Artist of a search result.
#[derive(Debug, Clone)]
pub struct ArtistSummary {
    pub id: String,
    pub name: String,
    pub sort_name: Option<String>,
}

/// Release listed on a recording search result.
#[derive(Debug, Clone)]
pub struct ReleaseSummary {
    pub id: String,
    pub title: String,
    pub date: Option<String>,
}

/// One recording of a recording search response.
#[derive(Debug, Clone)]
pub struct RecordingResult {
    pub id: String,
    pub score: Option<i32>,
    pub title: String,
    pub artist_credit: Option<Vec<ArtistCredit>>,
    pub releases: Option<Vec<ReleaseSummary>>,
}

/// One release of a release search response.
#[derive(Debug, Clone)]
pub struct ReleaseResult {
    pub id: String,
    pub score: Option<i32>,
    pub title: String,
    pub date: Option<String>,
    pub artist_credit: Option<Vec<ArtistCredit>>,
}

/// MusicBrainz identifiers found for a track.
#[derive(Debug, Clone)]
pub struct MusicBrainzMatch {
    pub recording_mbid: Option<String>,
    pub artist_mbid: Option<String>,
    pub artist_sort_name: Option<String>,
    pub album_mbid: Option<String>,
    pub release_year: Option<i32>,
    pub release_candidates: Vec<String>,
}

/// Recording candidate offered for manual matching.
#[derive(Debug, Clone)]
pub struct MusicBrainzRecordingCandidate {
    pub recording_mbid: String,
    pub score: Option<i32>,
    pub title: String,
    pub artist_name: Option<String>,
    pub artist_mbid: Option<String>,
    pub release_title: Option<String>,
    pub release_mbid: Option<String>,
    pub year: Option<i32>,
}

/// Release candidate offered for manual matching.
#[derive(Debug, Clone)]
pub struct MusicBrainzReleaseCandidate {
    pub release_mbid: String,
    pub score: Option<i32>,
    pub title: String,
    pub artist_name: Option<String>,
    pub artist_mbid: Option<String>,
    pub year: Option<i32>,
}

/// Outcome of a recording lookup.
pub enum MusicBrainzLookup {
    Match(MusicBrainzMatch),
    NoMatch {
        query: String,
        top_score: Option<i32>,
        best_recording_id: Option<String>,
        best_recording_title: Option<String>,
    },
}

/// `raw` with every `"` escaped as `\"`.
pub open spec fn escape_spec(s: Seq<char>) -> Seq<char>
    decreases s.len(),
{
    if s.len() == 0 {
        Seq::empty()
    } else {
        escape_spec(s.drop_last()) + if s.last() == '"' {
            seq!['\\', '"']
        } else {
            seq![s.last()]
        }
    }
}

/// Appends `raw` with quotes escaped.
fn push_escaped(out: &mut Vec<char>, raw: &str)
    ensures
        final(out)@ == old(out)@ + escape_spec(raw@),
{
    let v = chars_of(raw);
    let mut i: usize = 0;
    while i < v.len()
        invariant
            i <= v@.len(),
            v@ == raw@,
            out@ == old(out)@ + escape_spec(v@.take(i as int)),
        decreases v@.len() - i,
    {
        let ghost before = out@;
        let c = v[i];
        if c == '"' {
            out.push('\\');
            out.push('"');
        } else {
            out.push(c);
        }
        assert(v@.take(i + 1).drop_last() =~= v@.take(i as int));
        assert(v@.take(i + 1).last() == c);
        assert(out@ =~= old(out)@ + escape_spec(v@.take(i + 1)));
        i = i + 1;
    }
    assert(v@.take(v@.len() as int) =~= v@);
}

/// Escapes double quotes for a MusicBrainz query value.
pub fn escape_query(raw: &str) -> (r: String)
    ensures
        r@ == escape_spec(raw@),
{
    let mut out: Vec<char> = Vec::new();
    push_escaped(&mut out, raw);
    assert(out@ =~= escape_spec(raw@));
    string_from_chars(out.as_slice())
}

/// Recording search query: `recording:"…" AND artist:"…"`, then
/// ` AND release:"…"` when an album is given.
pub open spec fn query_spec(title: Seq<char>, artist: Seq<char>, album: Option<Seq<char>>) -> Seq<char> {
    "recording:\""@ + escape_spec(title) + "\" AND artist:\""@ + escape_spec(artist) + "\""@
        + match album {
        Some(a) => " AND release:\""@ + escape_spec(a) + "\""@,
        None => Seq::empty(),
    }
}

/// Release search query: `release:"…" AND artist:"…"`.
pub open spec fn release_query_spec(title: Seq<char>, artist: Seq<char>) -> Seq<char> {
    "release:\""@ + escape_spec(title) + "\" AND artist:\""@ + escape_spec(artist) + "\""@
}

/// The view of an optional string slice.
pub open spec fn opt_view(o: Option<&str>) -> Option<Seq<char>> {
    crate::media::opt_str_view(o)
}

/// Builds the recording search query for a track.
pub fn build_query(title: &str, artist: &str, album: Option<&str>) -> (r: String)
    ensures
        r@ == query_spec(title@, artist@, opt_view(album)),
{
    let mut out: Vec<char> = Vec::new();
    push_str_chars(&mut out, "recording:\"");
    push_escaped(&mut out, title);
    push_str_chars(&mut out, "\" AND artist:\"");
    push_escaped(&mut out, artist);
    push_str_chars(&mut out, "\"");
    if let Some(album) = album {
        push_str_chars(&mut out, " AND release:\"");
        push_escaped(&mut out, album);
        push_str_chars(&mut out, "\"");
    }
    assert(out@ =~= query_spec(title@, artist@, opt_view(album)));
    string_from_chars(out.as_slice())
}

/// Builds the release search query for an album.
pub fn build_release_query(title: &str, artist: &str) -> (r: String)
    ensures
        r@ == release_query_spec(title@, artist@),
{
    let mut out: Vec<char> = Vec::new();
    push_str_chars(&mut out, "release:\"");
    push_escaped(&mut out, title);
    push_str_chars(&mut out, "\" AND artist:\"");
    push_escaped(&mut out, artist);
    push_str_chars(&mut out, "\"");
    assert(out@ =~= release_query_spec(title@, artist@));
    string_from_chars(out.as_slice())
}

/// Text outside brackets with whitespace runs collapsed: the characters
/// kept so far, the bracket depth, and whether the last kept character is
/// a collapsed space.
pub open spec fn paren_scan(s: Seq<char>) -> (Seq<char>, nat, bool)
    decreases s.len(),
{
    if s.len() == 0 {
        (Seq::empty(), 0, false)
    } else {
        let (out, depth, prev_space) = paren_scan(s.drop_last());
        let ch = s.last();
        if ch == '(' || ch == '[' || ch == '{' {
            (out, depth + 1, prev_space)
        } else if ch == ')' || ch == ']' || ch == '}' {
            (out, if depth > 0 {
                (depth - 1) as nat
            } else {
                0
            }, prev_space)
        } else if depth == 0 {
            if is_ws(ch) {
                if !prev_space {
                    (out.push(' '), depth, true)
                } else {
                    (out, depth, prev_space)
                }
            } else {
                (out.push(ch), depth, false)
            }
        } else {
            (out, depth, prev_space)
        }
    }
}

/// The trimmed part before the first ` - `, or the whole value trimmed
/// when there is none or that part is blank.
pub open spec fn suffix_cut(value: Seq<char>) -> Seq<char> {
    match find(value, " - "@) {
        Some(i) => if trim(value.take(i)).len() > 0 {
            trim(value.take(i))
        } else {
            trim(value)
        },
        None => trim(value),
    }
}

/// A title without bracketed parts and without a ` - …` suffix; none when
/// nothing is left or nothing changed (ignoring ASCII case).
pub open spec fn strip_parenthetical_spec(raw: Seq<char>) -> Option<Seq<char>> {
    let cleaned = trim(paren_scan(raw).0);
    if cleaned.len() == 0 {
        None
    } else {
        let w = suffix_cut(cleaned);
        if eq_ignore_case(w, trim(raw)) {
            None
        } else {
            Some(w)
        }
    }
}

/// Removes a ` - …` suffix from a value.
pub fn strip_suffix_after_dash(value: &str) -> (r: String)
    ensures
        r@ == suffix_cut(value@),
{
    let v = chars_of(value);
    let r = suffix_cut_chars(v.as_slice());
    string_from_chars(r.as_slice())
}

fn suffix_cut_chars(v: &[char]) -> (r: Vec<char>)
    ensures
        r@ == suffix_cut(v@),
{
    let pat = chars_of(" - ");
    match find_chars(v, pat.as_slice()) {
        Some(i) => {
            let left = sub_chars(v, 0, i);
            assert(left@ =~= v@.take(i as int));
            let t = trim_chars(left.as_slice());
            if t.len() > 0 {
                t
            } else {
                trim_chars(v)
            }
        },
        None => trim_chars(v),
    }
}

/// Removes bracketed parts and a ` - …` suffix from a title
/// (`"Hunting High and Low (2015 Remaster)"` gives `Hunting High and Low`).
pub fn strip_parenthetical(raw: &str) -> (r: Option<String>)
    ensures
        opt_string_view(r) == strip_parenthetical_spec(raw@),
{
    let v = chars_of(raw);
    let mut out: Vec<char> = Vec::new();
    let mut depth: usize = 0;
    let mut prev_space = false;
    let mut i: usize = 0;
    while i < v.len()
        invariant
            i <= v@.len(),
            v@ == raw@,
            depth <= i,
            paren_scan(v@.take(i as int)) == (out@, depth as nat, prev_space),
        decreases v@.len() - i,
    {
        let ch = v[i];
        assert(v@.take(i + 1).drop_last() =~= v@.take(i as int));
        assert(v@.take(i + 1).last() == ch);
        if ch == '(' || ch == '[' || ch == '{' {
            depth = depth + 1;
        } else if ch == ')' || ch == ']' || ch == '}' {
            if depth > 0 {
                depth = depth - 1;
            }
        } else if depth == 0 {
            if char_is_ws(ch) {
                if !prev_space {
                    out.push(' ');
                    prev_space = true;
                }
            } else {
                out.push(ch);
                prev_space = false;
            }
        }
        i = i + 1;
    }
    assert(v@.take(v@.len() as int) =~= v@);
    let cleaned = trim_chars(out.as_slice());
    if cleaned.len() == 0 {
        return None;
    }
    let without_suffix = suffix_cut_chars(cleaned.as_slice());
    let raw_trimmed = trim_chars(v.as_slice());
    if chars_eq_ignore_case(without_suffix.as_slice(), raw_trimmed.as_slice()) {
        None
    } else {
        Some(string_from_chars(without_suffix.as_slice()))
    }
}

/// Title and album to retry a search with; none when neither changes.
pub open spec fn fallback_spec(title: Seq<char>, album: Option<Seq<char>>) -> Option<(Seq<char>, Option<Seq<char>>)> {
    let tf = strip_parenthetical_spec(title);
    let af = match album {
        Some(a) => strip_parenthetical_spec(a),
        None => None,
    };
    if tf is None && af is None {
        None
    } else {
        Some(
            (
                match tf {
                    Some(t) => t,
                    None => trim(title),
                },
                match album {
                    Some(a) => {
                        let v = match af {
                            Some(x) => x,
                            None => trim(a),
                        };
                        if v.len() == 0 {
                            None
                        } else {
                            Some(v)
                        }
                    },
                    None => None,
                },
            ),
        )
    }
}

/// The view of an optional title/album pair.
pub open spec fn fallback_view(r: Option<(String, Option<String>)>) -> Option<(Seq<char>, Option<Seq<char>>)> {
    match r {
        Some((t, a)) => Some((t@, opt_string_view(a))),
        None => None,
    }
}

/// Trimmed copy of `s`.
fn trimmed_string(s: &str) -> (r: String)
    ensures
        r@ == trim(s@),
{
    let c = chars_of(s);
    let t = trim_chars(c.as_slice());
    string_from_chars(t.as_slice())
}

/// Title and album with bracketed parts and dash suffixes removed, for a
/// second search attempt.
pub fn fallback_parts(title: &str, album: Option<&str>) -> (r: Option<(String, Option<String>)>)
    ensures
        fallback_view(r) == fallback_spec(title@, opt_view(album)),
{
    let title_fallback = strip_parenthetical(title);
    let album_fallback = match album {
        Some(a) => strip_parenthetical(a),
        None => None,
    };
    if title_fallback.is_none() && album_fallback.is_none() {
        return None;
    }
    let t = match title_fallback {
        Some(t) => t,
        None => trimmed_string(title),
    };
    let a = match album {
        Some(value) => {
            let v = match album_fallback {
                Some(x) => x,
                None => trimmed_string(value),
            };
            if v.as_str().is_empty() {
                None
            } else {
                Some(v)
            }
        },
        None => None,
    };
    Some((t, a))
}

/// Score of a result, 0 when missing.
pub open spec fn score_of(score: Option<i32>) -> i32 {
    match score {
        Some(s) => s,
        None => 0,
    }
}

/// The better of two optional results: the higher score, the left one on
/// a tie.
pub open spec fn select_best_spec(
    left: Option<RecordingResult>,
    right: Option<RecordingResult>,
) -> Option<RecordingResult> {
    match (left, right) {
        (Some(a), Some(b)) => if score_of(a.score) >= score_of(b.score) {
            Some(a)
        } else {
            Some(b)
        },
        (Some(a), None) => Some(a),
        (None, Some(b)) => Some(b),
        (None, None) => None,
    }
}

/// Picks the better of two optional recordings.
pub fn select_best_recording(left: Option<RecordingResult>, right: Option<RecordingResult>) -> (r:
    Option<RecordingResult>)
    ensures
        r == select_best_spec(left, right),
{
    match (left, right) {
        (Some(a), Some(b)) => {
            let sa = match a.score {
                Some(s) => s,
                None => 0,
            };
            let sb = match b.score {
                Some(s) => s,
                None => 0,
            };
            if sa >= sb {
                Some(a)
            } else {
                Some(b)
            }
        },
        (Some(a), None) => Some(a),
        (None, Some(b)) => Some(b),
        (None, None) => None,
    }
}

/// Key that marks a title/artist/album triple as already without match:
/// each part trimmed and lowercased, joined by `|`.
pub open spec fn no_match_key_spec(title: Seq<char>, artist: Seq<char>, album: Option<Seq<char>>) -> Seq<char> {
    unicode_lowercase(trim(title)) + seq!['|'] + unicode_lowercase(trim(artist)) + seq!['|']
        + match album {
        Some(a) => unicode_lowercase(trim(a)),
        None => Seq::empty(),
    }
}

/// Lowercased trimmed copy of `s`.
fn lower_trimmed(s: &str) -> (r: Vec<char>)
    ensures
        r@ == unicode_lowercase(trim(s@)),
{
    let t = trimmed_string(s);
    let l = to_lowercase(t.as_str());
    chars_of(l.as_str())
}

/// Builds the key that suppresses repeated lookups of a track.
pub fn no_match_key(title: &str, artist: &str, album: Option<&str>) -> (r: String)
    ensures
        r@ == no_match_key_spec(title@, artist@, opt_view(album)),
{
    let mut key: Vec<char> = Vec::new();
    let t = lower_trimmed(title);
    push_chars(&mut key, t.as_slice());
    key.push('|');
    let a = lower_trimmed(artist);
    push_chars(&mut key, a.as_slice());
    key.push('|');
    if let Some(album) = album {
        let al = lower_trimmed(album);
        push_chars(&mut key, al.as_slice());
    }
    assert(key@ =~= no_match_key_spec(title@, artist@, opt_view(album)));
    string_from_chars(key.as_slice())
}

/// Id and name of the first credited artist, if any.
pub open spec fn primary_artist_spec(credits: Option<Vec<ArtistCredit>>) -> (Option<String>, Option<String>) {
    match credits {
        Some(items) => if items@.len() > 0 {
            (Some(items@[0].artist.id), Some(items@[0].artist.name))
        } else {
            (None, None)
        },
        None => (None, None),
    }
}

/// Id and name of the first credited artist.
pub fn primary_artist(credits: Option<&Vec<ArtistCredit>>) -> (r: (Option<String>, Option<String>))
    ensures
        r == primary_artist_spec(
            match credits {
                Some(c) => Some(*c),
                None => None,
            },
        ),
{
    match credits {
        Some(items) => {
            if items.len() > 0 {
                (Some(items[0].artist.id.clone()), Some(items[0].artist.name.clone()))
            } else {
                (None, None)
            }
        },
        None => (None, None),
    }
}

/// The views of a sequence of strings.
pub open spec fn views(v: Seq<String>) -> Seq<Seq<char>> {
    v.map_values(|s: String| s@)
}

/// Values in order, each kept at its first occurrence only.
pub open spec fn dedup_first(s: Seq<Seq<char>>) -> Seq<Seq<char>>
    decreases s.len(),
{
    if s.len() == 0 {
        Seq::empty()
    } else if s.drop_last().contains(s.last()) {
        dedup_first(s.drop_last())
    } else {
        dedup_first(s.drop_last()).push(s.last())
    }
}

/// Ids of the releases listed on a recording, in order.
pub open spec fn release_ids(releases: Seq<ReleaseSummary>) -> Seq<Seq<char>> {
    releases.map_values(|r: ReleaseSummary| r.id@)
}

/// Whether a search result is too weak to accept: missing, or scored below
/// the threshold.
pub open spec fn below_threshold(best: Option<RecordingResult>) -> bool {
    match best {
        Some(r) => score_of(r.score) < MIN_MATCH_SCORE,
        None => true,
    }
}

/// Whether a fallback search is worth trying after the first search.
pub fn needs_fallback(best: &Option<RecordingResult>) -> (r: bool)
    ensures
        r == below_threshold(*best),
{
    match best {
        Some(rec) => {
            let s = match rec.score {
                Some(s) => s,
                None => 0,
            };
            s < MIN_MATCH_SCORE
        },
        None => true,
    }
}

/// The query of the first search followed by that of the fallback search.
pub open spec fn fallback_label(query: Seq<char>, fallback_query: Seq<char>) -> Seq<char> {
    query + " | fallback: "@ + fallback_query
}

/// Result and query label after a fallback search: a fallback result at or
/// above the threshold wins outright; otherwise the better of both results
/// is kept and both queries are reported.
pub open spec fn merge_fallback_spec(
    query: Seq<char>,
    best: Option<RecordingResult>,
    fallback_query: Seq<char>,
    fallback_best: Option<RecordingResult>,
) -> (Option<RecordingResult>, Seq<char>) {
    match fallback_best {
        Some(f) => if score_of(f.score) >= MIN_MATCH_SCORE {
            (fallback_best, fallback_query)
        } else {
            (select_best_spec(best, fallback_best), fallback_label(query, fallback_query))
        },
        None => if best is None {
            (best, fallback_label(query, fallback_query))
        } else {
            (best, query)
        },
    }
}

/// Combines the results of the first and the fallback recording search.
pub fn merge_fallback(
    query: &str,
    best: Option<RecordingResult>,
    fallback_query: &str,
    fallback_best: Option<RecordingResult>,
) -> (r: (Option<RecordingResult>, String))
    ensures
        r.0 == merge_fallback_spec(query@, best, fallback_query@, fallback_best).0,
        r.1@ == merge_fallback_spec(query@, best, fallback_query@, fallback_best).1,
{
    let fallback_score = match &fallback_best {
        Some(rec) => Some(
            match rec.score {
                Some(s) => s,
                None => 0,
            },
        ),
        None => None,
    };
    match fallback_score {
        Some(score) => {
            if score >= MIN_MATCH_SCORE {
                (fallback_best, string_from_chars(chars_of(fallback_query).as_slice()))
            } else {
                (select_best_recording(best, fallback_best), labelled(query, fallback_query))
            }
        },
        None => {
            if best.is_none() {
                (best, labelled(query, fallback_query))
            } else {
                (best, string_from_chars(chars_of(query).as_slice()))
            }
        },
    }
}

fn labelled(query: &str, fallback_query: &str) -> (r: String)
    ensures
        r@ == fallback_label(query@, fallback_query@),
{
    let mut out: Vec<char> = Vec::new();
    push_str_chars(&mut out, query);
    push_str_chars(&mut out, " | fallback: ");
    push_str_chars(&mut out, fallback_query);
    string_from_chars(out.as_slice())
}

/// The search to retry with: the fallback title, album and their query,
/// when the fallback query differs from the first one.
pub open spec fn retry_spec(title: Seq<char>, artist: Seq<char>, album: Option<Seq<char>>) -> Option<(Seq<char>, Option<Seq<char>>, Seq<char>)> {
    match fallback_spec(title, album) {
        Some((t, a)) => {
            let q = query_spec(t, artist, a);
            if q == query_spec(title, artist, album) {
                None
            } else {
                Some((t, a, q))
            }
        },
        None => None,
    }
}

/// The view of a retry search.
pub open spec fn retry_view(r: Option<(String, Option<String>, String)>) -> Option<(Seq<char>, Option<Seq<char>>, Seq<char>)> {
    match r {
        Some((t, a, q)) => Some((t@, opt_string_view(a), q@)),
        None => None,
    }
}

/// Title, album and query of the fallback recording search, if one applies.
pub fn retry_search(title: &str, artist: &str, album: Option<&str>) -> (r: Option<(String, Option<String>, String)>)
    ensures
        retry_view(r) == retry_spec(title@, artist@, opt_view(album)),
{
    let query = build_query(title, artist, album);
    match fallback_parts(title, album) {
        Some((fallback_title, fallback_album)) => {
            let fallback_query = match &fallback_album {
                Some(a) => build_query(fallback_title.as_str(), artist, Some(a.as_str())),
                None => build_query(fallback_title.as_str(), artist, None),
            };
            if fallback_query == query {
                None
            } else {
                Some((fallback_title, fallback_album, fallback_query))
            }
        },
        None => None,
    }
}

/// Title and query of the fallback release search, if one applies.
pub open spec fn release_retry_spec(title: Seq<char>, artist: Seq<char>) -> Option<(Seq<char>, Seq<char>)> {
    match strip_parenthetical_spec(title) {
        Some(t) => {
            let q = release_query_spec(t, artist);
            if q == release_query_spec(title, artist) {
                None
            } else {
                Some((t, q))
            }
        },
        None => None,
    }
}

/// Title and query to retry an empty release search with.
pub fn release_retry_search(title: &str, artist: &str) -> (r: Option<(String, String)>)
    ensures
        match r {
            Some((t, q)) => release_retry_spec(title@, artist@) == Some((t@, q@)),
            None => release_retry_spec(title@, artist@) is None,
        },
{
    let query = build_release_query(title, artist);
    match strip_parenthetical(title) {
        Some(fallback_title) => {
            let fallback_query = build_release_query(fallback_title.as_str(), artist);
            if fallback_query == query {
                None
            } else {
                Some((fallback_title, fallback_query))
            }
        },
        None => None,
    }
}

/// Release ids of a recording, each kept once, in order of first listing.
fn distinct_release_ids(releases: &Vec<ReleaseSummary>) -> (r: Vec<String>)
    ensures
        views(r@) == dedup_first(release_ids(releases@)),
{
    let mut out: Vec<String> = Vec::new();
    let ghost ids = release_ids(releases@);
    let mut i: usize = 0;
    while i < releases.len()
        invariant
            i <= releases@.len(),
            ids == release_ids(releases@),
            views(out@) == dedup_first(ids.take(i as int)),
        decreases releases@.len() - i,
    {
        let id = &releases[i].id;
        let mut seen = false;
        let mut j: usize = 0;
        while j < i
            invariant
                j <= i,
                i < releases@.len(),
                ids == release_ids(releases@),
                *id == releases@[i as int].id,
                seen <==> exists|k: int| 0 <= k < j && ids[k] == id@,
            decreases i - j,
        {
            if releases[j].id == *id {
                seen = true;
            }
            proof {
                assert(ids[j as int] == releases@[j as int].id@);
            }
            j = j + 1;
        }
        let ghost prefix = ids.take(i as int);
        let ghost next = ids.take(i + 1);
        proof {
            assert(next.drop_last() =~= prefix);
            assert(next.last() == id@);
            if seen {
                let k = choose|k: int| 0 <= k < i && ids[k] == id@;
                assert(prefix[k] == id@);
                assert(prefix.contains(id@));
            } else {
                assert(!prefix.contains(id@)) by {
                    if prefix.contains(id@) {
                        let k = choose|k: int| 0 <= k < prefix.len() && prefix[k] == id@;
                        assert(ids[k] == id@);
                    }
                }
            }
        }
        if !seen {
            let ghost before = out@;
            let c = id.clone();
            out.push(c);
            proof {
                assert(views(out@) =~= views(before).push(id@));
            }
        }
        i = i + 1;
    }
    proof {
        assert(ids.take(releases@.len() as int) =~= ids);
    }
    out
}

/// What a lookup found, as plain values.
pub struct MatchView {
    pub recording_mbid: Option<Seq<char>>,
    pub artist_mbid: Option<Seq<char>>,
    pub artist_sort_name: Option<Seq<char>>,
    pub album_mbid: Option<Seq<char>>,
    pub release_year: Option<i32>,
    pub release_candidates: Seq<Seq<char>>,
}

impl View for MusicBrainzMatch {
    type V = MatchView;

    open spec fn view(&self) -> MatchView {
        MatchView {
            recording_mbid: opt_string_view(self.recording_mbid),
            artist_mbid: opt_string_view(self.artist_mbid),
            artist_sort_name: opt_string_view(self.artist_sort_name),
            album_mbid: opt_string_view(self.album_mbid),
            release_year: self.release_year,
            release_candidates: views(self.release_candidates@),
        }
    }
}

/// Outcome of a lookup, as plain values.
pub enum LookupView {
    Match(MatchView),
    NoMatch {
        query: Seq<char>,
        top_score: Option<i32>,
        best_recording_id: Option<Seq<char>>,
        best_recording_title: Option<Seq<char>>,
    },
}

impl View for MusicBrainzLookup {
    type V = LookupView;

    open spec fn view(&self) -> LookupView {
        match self {
            MusicBrainzLookup::Match(m) => LookupView::Match(m@),
            MusicBrainzLookup::NoMatch { query, top_score, best_recording_id, best_recording_title } =>
                LookupView::NoMatch {
                query: query@,
                top_score: *top_score,
                best_recording_id: opt_string_view(*best_recording_id),
                best_recording_title: opt_string_view(*best_recording_title),
            },
        }
    }
}

/// Year of a release date, if it has one that parses.
pub open spec fn date_year(date: Option<String>) -> Option<i32> {
    match date {
        Some(d) => i32_tag(d@),
        None => None,
    }
}

/// The match read off an accepted recording: its id, the first credited
/// artist, and its releases (the first distinct id as the album, the rest
/// as candidates, the year of the first listed release).
pub open spec fn match_from_recording(best: RecordingResult) -> MatchView {
    let credit = match best.artist_credit {
        Some(c) => if c@.len() > 0 {
            Some(c@[0])
        } else {
            None
        },
        None => None,
    };
    let ids = match best.releases {
        Some(rs) => dedup_first(release_ids(rs@)),
        None => Seq::empty(),
    };
    MatchView {
        recording_mbid: Some(best.id@),
        artist_mbid: match credit {
            Some(c) => Some(c.artist.id@),
            None => None,
        },
        artist_sort_name: match credit {
            Some(c) => opt_string_view(c.artist.sort_name),
            None => None,
        },
        album_mbid: if ids.len() > 0 {
            Some(ids[0])
        } else {
            None
        },
        release_year: match best.releases {
            Some(rs) => if rs@.len() > 0 {
                date_year(rs@[0].date)
            } else {
                None
            },
            None => None,
        },
        release_candidates: if ids.len() > 0 {
            ids.drop_first()
        } else {
            Seq::empty()
        },
    }
}

/// The outcome for the best recording found under a query label: no match
/// when there is none or it scores below the threshold.
pub open spec fn lookup_spec(best: Option<RecordingResult>, label: Seq<char>) -> LookupView {
    match best {
        None => LookupView::NoMatch {
            query: label,
            top_score: None,
            best_recording_id: None,
            best_recording_title: None,
        },
        Some(b) => if score_of(b.score) < MIN_MATCH_SCORE {
            LookupView::NoMatch {
                query: label,
                top_score: b.score,
                best_recording_id: Some(b.id@),
                best_recording_title: Some(b.title@),
            }
        } else {
            LookupView::Match(match_from_recording(b))
        },
    }
}

/// Decides the outcome of a recording lookup from its best search result.
pub fn lookup_result(best: Option<RecordingResult>, query_label: String) -> (r: MusicBrainzLookup)
    ensures
        r@ == lookup_spec(best, query_label@),
{
    let best = match best {
        None => {
            return MusicBrainzLookup::NoMatch {
                query: query_label,
                top_score: None,
                best_recording_id: None,
                best_recording_title: None,
            };
        },
        Some(b) => b,
    };
    let score = match best.score {
        Some(s) => s,
        None => 0,
    };
    if score < MIN_MATCH_SCORE {
        return MusicBrainzLookup::NoMatch {
            query: query_label,
            top_score: best.score,
            best_recording_id: Some(best.id.clone()),
            best_recording_title: Some(best.title.clone()),
        };
    }
    let ghost spec_best = best;
    let (artist_mbid, artist_sort_name) = match &best.artist_credit {
        Some(credits) => {
            if credits.len() > 0 {
                (Some(credits[0].artist.id.clone()), credits[0].artist.sort_name.clone())
            } else {
                (None, None)
            }
        },
        None => (None, None),
    };
    let (album_mbid, release_year, release_candidates) = match &best.releases {
        Some(releases) => {
            let ids = distinct_release_ids(releases);
            let year = if releases.len() > 0 {
                match &releases[0].date {
                    Some(d) => parse_year(d.as_str()),
                    None => None,
                }
            } else {
                None
            };
            if ids.len() > 0 {
                let mut rest = ids;
                let first = rest.remove(0);
                proof {
                    assert(views(rest@) =~= dedup_first(release_ids(releases@)).drop_first());
                }
                (Some(first), year, rest)
            } else {
                (None, year, Vec::new())
            }
        },
        None => (None, None, Vec::new()),
    };
    let m = MusicBrainzMatch {
        recording_mbid: Some(best.id),
        artist_mbid,
        artist_sort_name,
        album_mbid,
        release_year,
        release_candidates,
    };
    proof {
        assert(views(m.release_candidates@) =~= match_from_recording(spec_best).release_candidates);
    }
    MusicBrainzLookup::Match(m)
}

/// Number of releases asked for when a match has no album id yet.
pub const RELEASE_SEARCH_LIMIT: u32 = 5;

/// The album name to search releases for: the trimmed album, when the match
/// has no album id and the album is not blank.
pub open spec fn release_search_spec(m: MatchView, album: Option<Seq<char>>) -> Option<Seq<char>> {
    match album {
        Some(a) => if m.album_mbid is None && trim(a).len() > 0 {
            Some(trim(a))
        } else {
            None
        },
        None => None,
    }
}

/// Album to search releases for after a match without an album id.
pub fn release_search_album(m: &MusicBrainzMatch, album: Option<&str>) -> (r: Option<String>)
    ensures
        opt_string_view(r) == release_search_spec(m@, opt_view(album)),
{
    if m.album_mbid.is_some() {
        return None;
    }
    match album {
        Some(a) => {
            let t = trimmed_string(a);
            if t.as_str().is_empty() {
                None
            } else {
                Some(t)
            }
        },
        None => None,
    }
}

/// Ids of release candidates, in order.
pub open spec fn candidate_ids(releases: Seq<MusicBrainzReleaseCandidate>) -> Seq<Seq<char>> {
    releases.map_values(|r: MusicBrainzReleaseCandidate| r.release_mbid@)
}

/// A match completed from a release search: the first release gives the
/// album id (and the year, when the match has none), the others the
/// candidates; an empty search changes nothing.
pub open spec fn with_releases_spec(m: MatchView, releases: Seq<MusicBrainzReleaseCandidate>) -> MatchView {
    if releases.len() == 0 {
        m
    } else {
        MatchView {
            recording_mbid: m.recording_mbid,
            artist_mbid: m.artist_mbid,
            artist_sort_name: m.artist_sort_name,
            album_mbid: Some(releases[0].release_mbid@),
            release_year: if m.release_year is None {
                releases[0].year
            } else {
                m.release_year
            },
            release_candidates: candidate_ids(releases).drop_first(),
        }
    }
}

/// Completes a match with the results of a release search.
pub fn with_releases(m: MusicBrainzMatch, releases: Vec<MusicBrainzReleaseCandidate>) -> (r: MusicBrainzMatch)
    ensures
        r@ == with_releases_spec(m@, releases@),
{
    if releases.len() == 0 {
        return m;
    }
    let mut m = m;
    let first_id = releases[0].release_mbid.clone();
    let first_year = releases[0].year;
    m.album_mbid = Some(first_id);
    if m.release_year.is_none() {
        m.release_year = first_year;
    }
    let mut rest: Vec<String> = Vec::new();
    let mut i: usize = 1;
    while i < releases.len()
        invariant
            1 <= i <= releases@.len(),
            views(rest@) == candidate_ids(releases@).subrange(1, i as int),
        decreases releases@.len() - i,
    {
        let ghost before = rest@;
        rest.push(releases[i].release_mbid.clone());
        proof {
            assert(views(rest@) =~= views(before).push(releases@[i as int].release_mbid@));
            assert(candidate_ids(releases@).subrange(1, i + 1) =~= candidate_ids(releases@).subrange(
                1,
                i as int,
            ).push(releases@[i as int].release_mbid@));
        }
        i = i + 1;
    }
    m.release_candidates = rest;
    proof {
        assert(candidate_ids(releases@).subrange(1, releases@.len() as int) =~= candidate_ids(
            releases@,
        ).drop_first());
    }
    m
}

/// Recording candidate read off a search result: its first credited artist
/// and its first listed release.
pub open spec fn recording_candidate_spec(rec: RecordingResult) -> MusicBrainzRecordingCandidate {
    let artist = primary_artist_spec(rec.artist_credit);
    let first = match rec.releases {
        Some(rs) => if rs@.len() > 0 {
            Some(rs@[0])
        } else {
            None
        },
        None => None,
    };
    MusicBrainzRecordingCandidate {
        recording_mbid: rec.id,
        score: rec.score,
        title: rec.title,
        artist_name: artist.1,
        artist_mbid: artist.0,
        release_title: match first {
            Some(r) => Some(r.title),
            None => None,
        },
        release_mbid: match first {
            Some(r) => Some(r.id),
            None => None,
        },
        year: match first {
            Some(r) => date_year(r.date),
            None => None,
        },
    }
}

/// Turns a recording search result into a candidate for manual matching.
pub fn recording_candidate(rec: RecordingResult) -> (r: MusicBrainzRecordingCandidate)
    ensures
        r == recording_candidate_spec(rec),
{
    let ghost orig = rec;
    let (artist_mbid, artist_name) = match &rec.artist_credit {
        Some(c) => primary_artist(Some(c)),
        None => primary_artist(None),
    };
    let (release_title, release_mbid, year) = match &rec.releases {
        Some(releases) => {
            if releases.len() > 0 {
                let y = match &releases[0].date {
                    Some(d) => parse_year(d.as_str()),
                    None => None,
                };
                (Some(releases[0].title.clone()), Some(releases[0].id.clone()), y)
            } else {
                (None, None, None)
            }
        },
        None => (None, None, None),
    };
    MusicBrainzRecordingCandidate {
        recording_mbid: rec.id,
        score: rec.score,
        title: rec.title,
        artist_name,
        artist_mbid,
        release_title,
        release_mbid,
        year,
    }
}

/// Release candidate read off a search result.
pub open spec fn release_candidate_spec(release: ReleaseResult) -> MusicBrainzReleaseCandidate {
    let artist = primary_artist_spec(release.artist_credit);
    MusicBrainzReleaseCandidate {
        release_mbid: release.id,
        score: release.score,
        title: release.title,
        artist_name: artist.1,
        artist_mbid: artist.0,
        year: date_year(release.date),
    }
}

/// Turns a release search result into a candidate for manual matching.
pub fn release_candidate(release: ReleaseResult) -> (r: MusicBrainzReleaseCandidate)
    ensures
        r == release_candidate_spec(release),
{
    let (artist_mbid, artist_name) = match &release.artist_credit {
        Some(c) => primary_artist(Some(c)),
        None => primary_artist(None),
    };
    let year = match &release.date {
        Some(d) => parse_year(d.as_str()),
        None => None,
    };
    MusicBrainzReleaseCandidate {
        release_mbid: release.id,
        score: release.score,
        title: release.title,
        artist_name,
        artist_mbid,
        year,
    }
}

/// Position of the best-scored result: the highest score, the last one
/// among equals.
pub open spec fn best_index(s: Seq<RecordingResult>) -> int
    decreases s.len(),
{
    if s.len() <= 1 {
        0
    } else {
        let b = best_index(s.drop_last());
        if score_of(s.last().score) >= score_of(s[b].score) {
            s.len() - 1
        } else {
            b
        }
    }
}

proof fn lemma_best_index(s: Seq<RecordingResult>)
    requires
        s.len() > 0,
    ensures
        0 <= best_index(s) < s.len(),
        forall|i: int| 0 <= i < s.len() ==> score_of(#[trigger] s[i].score) <= score_of(s[best_index(s)].score),
        forall|i: int| best_index(s) < i < s.len() ==> score_of(#[trigger] s[i].score) < score_of(s[best_index(s)].score),
    decreases s.len(),
{
    if s.len() > 1 {
        lemma_best_index(s.drop_last());
        let b = best_index(s.drop_last());
        assert forall|i: int| 0 <= i < s.len() - 1 implies #[trigger] s[i] == s.drop_last()[i] by {}
        assert(s[b] == s.drop_last()[b]);
    }
}

/// The best-scored recording of a search response: the highest score
/// (missing counts as 0), the last one among equals; none when empty.
pub fn best_recording(results: Vec<RecordingResult>) -> (r: Option<RecordingResult>)
    ensures
        results@.len() == 0 ==> r is None,
        results@.len() > 0 ==> r == Some(results@[best_index(results@)]),
        results@.len() > 0 ==> forall|i: int|
            0 <= i < results@.len() ==> score_of(#[trigger] results@[i].score) <= score_of(
                r->0.score,
            ),
{
    if results.len() == 0 {
        return None;
    }
    let ghost orig = results@;
    let mut best: usize = 0;
    let mut best_score: i32 = match results[0].score {
        Some(s) => s,
        None => 0,
    };
    let mut i: usize = 1;
    while i < results.len()
        invariant
            1 <= i <= results@.len(),
            results@ == orig,
            best == best_index(orig.take(i as int)),
            best < i,
            best_score == score_of(orig[best as int].score),
        decreases results@.len() - i,
    {
        let s = match results[i].score {
            Some(s) => s,
            None => 0,
        };
        proof {
            let t = orig.take(i + 1);
            assert(t.drop_last() =~= orig.take(i as int));
            assert(t.last() == orig[i as int]);
            assert(t[best as int] == orig[best as int]);
        }
        if s >= best_score {
            best = i;
            best_score = s;
        }
        i = i + 1;
    }
    proof {
        assert(orig.take(orig.len() as int) =~= orig);
        lemma_best_index(orig);
    }
    let mut results = results;
    Some(results.remove(best))
}

/// The items of keyed pairs, in order.
pub open spec fn unkeyed<T>(s: Seq<(i32, T)>) -> Seq<T> {
    s.map_values(|p: (i32, T)| p.1)
}

/// Recording search results as candidates keyed by score.
pub open spec fn keyed_recordings(s: Seq<RecordingResult>) -> Seq<(i32, MusicBrainzRecordingCandidate)> {
    s.map_values(|r: RecordingResult| (score_of(r.score), recording_candidate_spec(r)))
}

/// Release search results as candidates keyed by score.
pub open spec fn keyed_releases(s: Seq<ReleaseResult>) -> Seq<(i32, MusicBrainzReleaseCandidate)> {
    s.map_values(|r: ReleaseResult| (score_of(r.score), release_candidate_spec(r)))
}

fn strip_keys<T>(pairs: Vec<(i32, T)>) -> (r: Vec<T>)
    ensures
        r@ == unkeyed(pairs@),
{
    let ghost orig = pairs@;
    let mut input = pairs;
    let mut out: Vec<T> = Vec::new();
    let n = input.len();
    let mut i: usize = 0;
    while input.len() > 0
        invariant
            n == orig.len(),
            i + input@.len() == n,
            input@ == orig.subrange(i as int, n as int),
            out@ == unkeyed(orig.take(i as int)),
        decreases input@.len(),
    {
        let (_, item) = input.remove(0);
        out.push(item);
        proof {
            assert(out@ =~= unkeyed(orig.take(i + 1)));
            assert(input@ =~= orig.subrange(i + 1, n as int));
        }
        i = i + 1;
    }
    proof {
        assert(orig.take(n as int) =~= orig);
    }
    out
}

/// Recording candidates of a search response, highest score first (missing
/// scores count as 0, equal scores keep the response order).
pub fn rank_recordings(recordings: Vec<RecordingResult>) -> (r: Vec<MusicBrainzRecordingCandidate>)
    ensures
        r@ == unkeyed(sorted_desc(keyed_recordings(recordings@))),
{
    let ghost orig = recordings@;
    let mut input = recordings;
    let mut keyed: Vec<(i32, MusicBrainzRecordingCandidate)> = Vec::new();
    let n = input.len();
    let mut i: usize = 0;
    while input.len() > 0
        invariant
            n == orig.len(),
            i + input@.len() == n,
            input@ == orig.subrange(i as int, n as int),
            keyed@ == keyed_recordings(orig.take(i as int)),
        decreases input@.len(),
    {
        let rec = input.remove(0);
        let score = match rec.score {
            Some(s) => s,
            None => 0,
        };
        let c = recording_candidate(rec);
        keyed.push((score, c));
        proof {
            assert(keyed@ =~= keyed_recordings(orig.take(i + 1)));
            assert(input@ =~= orig.subrange(i + 1, n as int));
        }
        i = i + 1;
    }
    proof {
        assert(orig.take(n as int) =~= orig);
    }
    strip_keys(sort_by_key_desc(keyed))
}

/// Release candidates of a search response, highest score first (missing
/// scores count as 0, equal scores keep the response order).
pub fn rank_releases(releases: Vec<ReleaseResult>) -> (r: Vec<MusicBrainzReleaseCandidate>)
    ensures
        r@ == unkeyed(sorted_desc(keyed_releases(releases@))),
{
    let ghost orig = releases@;
    let mut input = releases;
    let mut keyed: Vec<(i32, MusicBrainzReleaseCandidate)> = Vec::new();
    let n = input.len();
    let mut i: usize = 0;
    while input.len() > 0
        invariant
            n == orig.len(),
            i + input@.len() == n,
            input@ == orig.subrange(i as int, n as int),
            keyed@ == keyed_releases(orig.take(i as int)),
        decreases input@.len(),
    {
        let rel = input.remove(0);
        let score = match rel.score {
            Some(s) => s,
            None => 0,
        };
        let c = release_candidate(rel);
        keyed.push((score, c));
        proof {
            assert(keyed@ =~= keyed_releases(orig.take(i + 1)));
            assert(input@ =~= orig.subrange(i + 1, n as int));
        }
        i = i + 1;
    }
    proof {
        assert(orig.take(n as int) =~= orig);
    }
    strip_keys(sort_by_key_desc(keyed))
}

/// Whether an enrichment candidate is looked up: not when its last lookup
/// found nothing for the same title, artist and album.
pub fn should_lookup(candidate: &crate::store::MusicBrainzCandidate) -> (r: bool)
    ensures
        r == !(candidate.no_match_key matches Some(k) && k@ == no_match_key_spec(
            candidate.title@,
            candidate.artist@,
            opt_string_view(candidate.album),
        )),
{
    let album: Option<&str> = match &candidate.album {
        Some(a) => Some(a.as_str()),
        None => None,
    };
    let key = no_match_key(candidate.title.as_str(), candidate.artist.as_str(), album);
    match &candidate.no_match_key {
        Some(k) => !crate::text::str_eq(k.as_str(), key.as_str()),
        None => true,
    }
}

/// The record a lookup result is applied to: the candidate's path, title,
/// artist, album artist and album, nothing else.
pub fn lookup_record(candidate: &crate::store::MusicBrainzCandidate) -> (r: crate::store::TrackRecord)
    ensures
        r.path@ == candidate.path@,
        r.file_name@.len() == 0,
        r.title matches Some(t) && t@ == candidate.title@,
        r.artist matches Some(a) && a@ == candidate.artist@,
        r.album_artist == candidate.album_artist,
        r.album == candidate.album,
        r.album_uuid is None && r.track_number is None && r.disc_number is None && r.year is None,
        r.duration_ms is None && r.sample_rate is None && r.bit_depth is None && r.format is None,
        r.mtime_ms == 0 && r.size_bytes == 0,
{
    crate::store::TrackRecord {
        path: candidate.path.clone(),
        file_name: String::new(),
        title: Some(candidate.title.clone()),
        artist: Some(candidate.artist.clone()),
        album_artist: candidate.album_artist.clone(),
        album: candidate.album.clone(),
        album_uuid: None,
        track_number: None,
        disc_number: None,
        year: None,
        duration_ms: None,
        sample_rate: None,
        bit_depth: None,
        format: None,
        mtime_ms: 0,
        size_bytes: 0,
    }
}

/// What the outcome of a candidate's lookup leads to.
#[derive(Debug)]
pub enum EnrichStep {
    /// Apply the match and report success.
    Apply(MusicBrainzMatch),
    /// Remember the no-match key and report the miss.
    RememberNoMatch(String),
    /// Report the failure.
    Failed(String),
}

/// Reads the outcome of a candidate's lookup.
pub fn enrich_step(candidate: &crate::store::MusicBrainzCandidate, result: Result<MusicBrainzLookup, String>) -> (r: EnrichStep)
    ensures
        match result {
            Ok(MusicBrainzLookup::Match(m)) => r == EnrichStep::Apply(m),
            Ok(MusicBrainzLookup::NoMatch { .. }) => r matches EnrichStep::RememberNoMatch(k) && k@ == no_match_key_spec(
                candidate.title@,
                candidate.artist@,
                opt_string_view(candidate.album),
            ),
            Err(e) => r matches EnrichStep::Failed(x) && x@ == e@,
        },
{
    match result {
        Ok(MusicBrainzLookup::Match(m)) => EnrichStep::Apply(m),
        Ok(MusicBrainzLookup::NoMatch { .. }) => {
            let album: Option<&str> = match &candidate.album {
                Some(a) => Some(a.as_str()),
                None => None,
            };
            EnrichStep::RememberNoMatch(no_match_key(candidate.title.as_str(), candidate.artist.as_str(), album))
        },
        Err(e) => EnrichStep::Failed(e),
    }
}

/// A best recording scored 90 or more is a match on that recording; one
/// scored lower, or without a score, is no match that reports its score,
/// id and title; no recording at all is no match.
pub proof fn law_lookup_matches_from_score_ninety(b: RecordingResult, label: Seq<char>)
    ensures
        (b.score matches Some(s) && s >= 90) ==> (lookup_spec(Some(b), label) matches LookupView::Match(m)
            && m.recording_mbid == Some(b.id@)),
        !(b.score matches Some(s) && s >= 90) ==> lookup_spec(Some(b), label) == (LookupView::NoMatch {
            query: label,
            top_score: b.score,
            best_recording_id: Some(b.id@),
            best_recording_title: Some(b.title@),
        }),
        lookup_spec(None, label) is NoMatch,
{
}

} // verus!
