//! Decisions of the metadata endpoints: which tag edits a request asks
//! for, list paging, and the candidates and matches of manual MusicBrainz
//! matching.

use vstd::prelude::*;

use crate::models::{AlbumMetadataUpdateRequest, MusicBrainzMatchCandidate, TrackMetadataUpdateRequest};
use crate::musicbrainz::{MusicBrainzMatch, MusicBrainzRecordingCandidate, MusicBrainzReleaseCandidate};
use crate::strings::{chars_of, string_from_chars};
use crate::tags::opt_string_view;
use crate::text::{trim, trim_chars};

verus! {

/// Tag values to write into a file; missing ones are left as they are.
#[derive(Debug, Clone)]
pub struct TrackTagUpdate {
    pub title: Option<String>,
    pub artist: Option<String>,
    pub album: Option<String>,
    pub album_artist: Option<String>,
    pub year: Option<i32>,
    pub track_number: Option<u32>,
    pub disc_number: Option<u32>,
}

/// A requested text value, trimmed; none when missing or blank.
pub open spec fn text_value(v: Option<Seq<char>>) -> Option<Seq<char>> {
    match v {
        Some(s) => if trim(s).len() > 0 {
            Some(trim(s))
        } else {
            None
        },
        None => None,
    }
}

fn text_field(v: &Option<String>) -> (r: Option<String>)
    ensures
        opt_string_view(r) == text_value(opt_string_view(*v)),
{
    match v {
        Some(s) => {
            let c = chars_of(s.as_str());
            let t = trim_chars(c.as_slice());
            if t.len() > 0 {
                Some(string_from_chars(t.as_slice()))
            } else {
                None
            }
        },
        None => None,
    }
}

/// A requested number, when positive.
pub open spec fn positive_i32(v: Option<i32>) -> Option<i32> {
    match v {
        Some(x) => if x > 0 {
            Some(x)
        } else {
            None
        },
        None => None,
    }
}

/// A requested number, when positive.
pub open spec fn positive_u32(v: Option<u32>) -> Option<u32> {
    match v {
        Some(x) => if x > 0 {
            Some(x)
        } else {
            None
        },
        None => None,
    }
}

/// Why an edit request is refused.
#[derive(Debug, Clone, Copy, PartialEq, Eq, Structural)]
pub enum EditError {
    /// No field carries a value.
    NoFields,
}

/// The tag edit a track request asks for: its text fields trimmed (blank
/// ones dropped) and its positive numbers; refused when nothing is left.
pub fn track_tag_update(req: &TrackMetadataUpdateRequest) -> (r: Result<TrackTagUpdate, EditError>)
    ensures
        match r {
            Ok(u) => opt_string_view(u.title) == text_value(opt_string_view(req.title))
                && opt_string_view(u.artist) == text_value(opt_string_view(req.artist))
                && opt_string_view(u.album) == text_value(opt_string_view(req.album))
                && opt_string_view(u.album_artist) == text_value(opt_string_view(req.album_artist))
                && u.year == positive_i32(req.year) && u.track_number == positive_u32(req.track_number)
                && u.disc_number == positive_u32(req.disc_number) && !(u.title is None
                && u.artist is None && u.album is None && u.album_artist is None && u.year is None
                && u.track_number is None && u.disc_number is None),
            Err(e) => e == EditError::NoFields && text_value(opt_string_view(req.title)) is None
                && text_value(opt_string_view(req.artist)) is None && text_value(
                opt_string_view(req.album),
            ) is None && text_value(opt_string_view(req.album_artist)) is None && positive_i32(
                req.year,
            ) is None && positive_u32(req.track_number) is None && positive_u32(req.disc_number)
                is None,
        },
{
    let title = text_field(&req.title);
    let artist = text_field(&req.artist);
    let album = text_field(&req.album);
    let album_artist = text_field(&req.album_artist);
    let year = match req.year {
        Some(y) => if y > 0 {
            Some(y)
        } else {
            None
        },
        None => None,
    };
    let track_number = match req.track_number {
        Some(n) => if n > 0 {
            Some(n)
        } else {
            None
        },
        None => None,
    };
    let disc_number = match req.disc_number {
        Some(n) => if n > 0 {
            Some(n)
        } else {
            None
        },
        None => None,
    };
    if title.is_none() && artist.is_none() && album.is_none() && album_artist.is_none()
        && year.is_none() && track_number.is_none() && disc_number.is_none() {
        return Err(EditError::NoFields);
    }
    Ok(TrackTagUpdate { title, artist, album, album_artist, year, track_number, disc_number })
}

/// The tag edit written into every track of an album: album, album artist,
/// positive year and track artist; refused when nothing is left.
pub fn album_tag_update(req: &AlbumMetadataUpdateRequest) -> (r: Result<TrackTagUpdate, EditError>)
    ensures
        match r {
            Ok(u) => u.title is None && opt_string_view(u.artist) == text_value(
                opt_string_view(req.track_artist),
            ) && opt_string_view(u.album) == text_value(opt_string_view(req.album))
                && opt_string_view(u.album_artist) == text_value(opt_string_view(req.album_artist))
                && u.year == positive_i32(req.year) && u.track_number is None && u.disc_number is None
                && !(u.artist is None && u.album is None && u.album_artist is None && u.year is None),
            Err(e) => e == EditError::NoFields && text_value(opt_string_view(req.track_artist)) is None
                && text_value(opt_string_view(req.album)) is None && text_value(
                opt_string_view(req.album_artist),
            ) is None && positive_i32(req.year) is None,
        },
{
    let album = text_field(&req.album);
    let album_artist = text_field(&req.album_artist);
    let track_artist = text_field(&req.track_artist);
    let year = match req.year {
        Some(y) => if y > 0 {
            Some(y)
        } else {
            None
        },
        None => None,
    };
    if album.is_none() && album_artist.is_none() && year.is_none() && track_artist.is_none() {
        return Err(EditError::NoFields);
    }
    Ok(
        TrackTagUpdate {
            title: None,
            artist: track_artist,
            album,
            album_artist,
            year,
            track_number: None,
            disc_number: None,
        },
    )
}

/// Whether an album edit also rewrites the album row: when it changes the
/// album, album artist or year.
pub fn album_row_changes(u: &TrackTagUpdate) -> (r: bool)
    ensures
        r == (u.album is Some || u.album_artist is Some || u.year is Some),
{
    u.album.is_some() || u.album_artist.is_some() || u.year.is_some()
}

/// Paging of a list query: the limit (default 200) kept within 1..=1000,
/// the offset (default 0) at least 0.
pub fn list_paging(limit: Option<i64>, offset: Option<i64>) -> (r: (i64, i64))
    ensures
        r.0 == match limit {
            Some(l) => if l < 1 {
                1
            } else if l > 1000 {
                1000
            } else {
                l
            },
            None => 200,
        },
        r.1 == match offset {
            Some(o) => if o < 0 {
                0
            } else {
                o
            },
            None => 0,
        },
{
    let l = match limit {
        Some(l) => if l < 1 {
            1
        } else if l > 1000 {
            1000
        } else {
            l
        },
        None => 200,
    };
    let o = match offset {
        Some(o) => if o < 0 {
            0
        } else {
            o
        },
        None => 0,
    };
    (l, o)
}

/// Number of manual-match candidates asked for: the given limit (default
/// 10) kept within 1..=25.
pub fn match_search_limit(limit: Option<u32>) -> (r: u32)
    ensures
        r == match limit {
            Some(l) => if l < 1 {
                1
            } else if l > 25 {
                25
            } else {
                l
            },
            None => 10,
        },
{
    match limit {
        Some(l) => if l < 1 {
            1
        } else if l > 25 {
            25
        } else {
            l
        },
        None => 10,
    }
}

/// A recording candidate as offered for manual matching; the searched
/// artist stands in for a missing artist name.
pub fn candidate_from_recording(item: MusicBrainzRecordingCandidate, artist: &str) -> (r: MusicBrainzMatchCandidate)
    ensures
        r.recording_mbid == Some(item.recording_mbid),
        r.release_mbid == item.release_mbid,
        r.artist_mbid == item.artist_mbid,
        r.title == item.title,
        r.artist@ == match item.artist_name {
            Some(n) => n@,
            None => artist@,
        },
        r.release_title == item.release_title,
        r.score == item.score,
        r.year == item.year,
{
    let name = match item.artist_name {
        Some(n) => n,
        None => string_from_chars(chars_of(artist).as_slice()),
    };
    MusicBrainzMatchCandidate {
        recording_mbid: Some(item.recording_mbid),
        release_mbid: item.release_mbid,
        artist_mbid: item.artist_mbid,
        title: item.title,
        artist: name,
        release_title: item.release_title,
        score: item.score,
        year: item.year,
    }
}

/// A release candidate as offered for manual matching; the searched artist
/// stands in for a missing artist name.
pub fn candidate_from_release(item: MusicBrainzReleaseCandidate, artist: &str) -> (r: MusicBrainzMatchCandidate)
    ensures
        r.recording_mbid is None,
        r.release_mbid == Some(item.release_mbid),
        r.artist_mbid == item.artist_mbid,
        r.title == item.title,
        r.artist@ == match item.artist_name {
            Some(n) => n@,
            None => artist@,
        },
        r.release_title is None,
        r.score == item.score,
        r.year == item.year,
{
    let name = match item.artist_name {
        Some(n) => n,
        None => string_from_chars(chars_of(artist).as_slice()),
    };
    MusicBrainzMatchCandidate {
        recording_mbid: None,
        release_mbid: Some(item.release_mbid),
        artist_mbid: item.artist_mbid,
        title: item.title,
        artist: name,
        release_title: None,
        score: item.score,
        year: item.year,
    }
}

/// The match applied for a manually chosen recording (no sort name, no
/// release candidates) and whether it overwrites stored ids (by default it
/// does).
pub fn manual_track_match(
    recording_mbid: String,
    artist_mbid: Option<String>,
    album_mbid: Option<String>,
    release_year: Option<i32>,
    override_existing: Option<bool>,
) -> (r: (MusicBrainzMatch, bool))
    ensures
        r.0.recording_mbid == Some(recording_mbid),
        r.0.artist_mbid == artist_mbid,
        r.0.artist_sort_name is None,
        r.0.album_mbid == album_mbid,
        r.0.release_year == release_year,
        r.0.release_candidates@.len() == 0,
        r.1 == match override_existing {
            Some(b) => b,
            None => true,
        },
{
    let m = MusicBrainzMatch {
        recording_mbid: Some(recording_mbid),
        artist_mbid,
        artist_sort_name: None,
        album_mbid,
        release_year,
        release_candidates: Vec::new(),
    };
    let o = match override_existing {
        Some(b) => b,
        None => true,
    };
    (m, o)
}

/// The match applied for a manually chosen release and whether it
/// overwrites stored ids (by default it does).
pub fn manual_album_match(
    album_mbid: String,
    artist_mbid: Option<String>,
    release_year: Option<i32>,
    override_existing: Option<bool>,
) -> (r: (MusicBrainzMatch, bool))
    ensures
        r.0.recording_mbid is None,
        r.0.artist_mbid == artist_mbid,
        r.0.artist_sort_name is None,
        r.0.album_mbid == Some(album_mbid),
        r.0.release_year == release_year,
        r.0.release_candidates@.len() == 0,
        r.1 == match override_existing {
            Some(b) => b,
            None => true,
        },
{
    let m = MusicBrainzMatch {
        recording_mbid: None,
        artist_mbid,
        artist_sort_name: None,
        album_mbid: Some(album_mbid),
        release_year,
        release_candidates: Vec::new(),
    };
    let o = match override_existing {
        Some(b) => b,
        None => true,
    };
    (m, o)
}

} // verus!
