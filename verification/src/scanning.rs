//! Decisions of library scans: the record stored for a scanned file, the
//! album folder markers that keep album ids stable, the events a scan
//! reports, and which stored tracks a scan leaves behind.

use vstd::prelude::*;
use crate::albums::{normalize_album_and_disc, normalize_spec};
use crate::events::MetadataEvent;
use crate::library::TrackMeta;
use crate::local_sessions::{is_uuid_v4_text, random_uuid_text};
use crate::paths::{file_name, file_name_of, join, join_spec, parent, parent_of};
use crate::rootpaths::{under_root, starts_with_root};
use crate::store::{AlbumMarkerCandidate, TrackRecord};
use crate::strings::{chars_of, string_from_chars};
use crate::tags::opt_string_view;
use crate::text::{str_eq, trim, trim_chars};

verus! {

/// Folder of an album's marker, inside the album folder.
pub const ALBUM_MARKER_DIR: &'static str = ".audio-hub";

/// File name of an album's marker.
pub const ALBUM_MARKER_FILE: &'static str = "album.json";

/// The record stored for a scanned file: its tags, with the album title and
/// disc number normalized (see `normalize_album_and_disc`), and its
/// modification time and size.
pub fn build_track_record(
    path: &str,
    file_name: &str,
    meta: &TrackMeta,
    mtime_ms: i64,
    size_bytes: i64,
    album_uuid: Option<String>,
) -> (r: TrackRecord)
    ensures
        r.path@ == path@,
        r.file_name@ == file_name@,
        r.title == meta.title,
        r.artist == meta.artist,
        r.album_artist == meta.album_artist,
        opt_string_view(r.album) == normalize_spec(path@, opt_string_view(meta.album), meta.disc_number).0,
        r.disc_number == normalize_spec(path@, opt_string_view(meta.album), meta.disc_number).1,
        r.album_uuid == album_uuid,
        r.track_number == meta.track_number,
        r.year == meta.year,
        r.duration_ms == meta.duration_ms,
        r.sample_rate == meta.sample_rate,
        r.bit_depth == meta.bit_depth,
        r.format == meta.format,
        r.mtime_ms == mtime_ms,
        r.size_bytes == size_bytes,
{
    let (album, disc_number, _source) = normalize_album_and_disc(path, &meta.album, meta.disc_number);
    TrackRecord {
        path: path.to_string(),
        file_name: file_name.to_string(),
        title: meta.title.clone(),
        artist: meta.artist.clone(),
        album_artist: meta.album_artist.clone(),
        album,
        album_uuid,
        track_number: meta.track_number,
        disc_number,
        year: meta.year,
        duration_ms: meta.duration_ms,
        sample_rate: meta.sample_rate,
        bit_depth: meta.bit_depth,
        format: meta.format.clone(),
        mtime_ms,
        size_bytes,
    }
}

/// The event reporting a normalized album title: when a title was changed
/// and the disc came from somewhere.
pub fn normalization_event(
    track_id: Option<i64>,
    original: &Option<String>,
    normalized: &Option<String>,
    disc_number: Option<u32>,
    source: Option<&str>,
) -> (r: Option<MetadataEvent>)
    ensures
        match (original, normalized, source) {
            (Some(o), Some(n), Some(s)) => if o@ != n@ {
                r matches Some(MetadataEvent::AlbumNormalization { track_id: t, original_album: a, normalized_album: b, disc_number: d, source: x })
                    && t == track_id && a@ == o@ && b@ == n@ && d == disc_number && x@ == s@
            } else {
                r is None
            },
            _ => r is None,
        },
{
    match (original, normalized, source) {
        (Some(o), Some(n), Some(s)) => {
            if str_eq(o.as_str(), n.as_str()) {
                None
            } else {
                Some(
                    MetadataEvent::AlbumNormalization {
                        track_id,
                        original_album: o.clone(),
                        normalized_album: n.clone(),
                        disc_number,
                        source: s.to_string(),
                    },
                )
            }
        },
        _ => None,
    }
}

/// Whether a rescan may skip a file: the stored record has the same
/// modification time and size, and the index lists the file.
pub fn rescan_unchanged(stored: Option<(i64, i64)>, mtime_ms: i64, size_bytes: i64, indexed: bool) -> (r: bool)
    ensures
        r == (stored == Some((mtime_ms, size_bytes)) && indexed),
{
    match stored {
        Some((m, s)) => m == mtime_ms && s == size_bytes && indexed,
        None => false,
    }
}

/// The marker kept in an album folder.
#[derive(Debug, Clone)]
pub struct AlbumFolderMarker {
    pub album_uuid: String,
    pub title: Option<String>,
    pub artist: Option<String>,
    pub original_year: Option<i32>,
    /// Unix time in milliseconds.
    pub created_at_ms: i64,
}

/// `{dir}/.audio-hub/album.json`.
pub open spec fn marker_path_spec(dir: Seq<char>) -> Seq<char> {
    join_spec(join_spec(dir, ALBUM_MARKER_DIR@), ALBUM_MARKER_FILE@)
}

/// Where an album folder keeps its marker.
pub fn album_marker_path(dir: &str) -> (r: String)
    ensures
        r@ == marker_path_spec(dir@),
{
    let d = join(chars_of(dir).as_slice(), chars_of(ALBUM_MARKER_DIR).as_slice());
    let f = join(d.as_slice(), chars_of(ALBUM_MARKER_FILE).as_slice());
    string_from_chars(f.as_slice())
}

/// The album a scanned file belongs to, for its marker: the album title,
/// trimmed and non-blank; the album artist, else the artist; and the
/// file's folder.
pub struct AlbumKey {
    pub title: String,
    pub artist: Option<String>,
    pub dir: String,
}

/// The album key of a file; none without an album title or a folder.
pub fn album_key(path: &str, meta: &TrackMeta) -> (r: Option<AlbumKey>)
    ensures
        match meta.album {
            None => r is None,
            Some(a) => if trim(a@).len() == 0 {
                r is None
            } else {
                match parent_of(path@) {
                    None => r is None,
                    Some(d) => r matches Some(k) && k.title@ == trim(a@) && k.dir@ == d && opt_string_view(k.artist)
                        == match meta.album_artist {
                        Some(x) => Some(x@),
                        None => opt_string_view(meta.artist),
                    },
                }
            },
        },
{
    let album = match &meta.album {
        Some(a) => a,
        None => {
            return None;
        },
    };
    let t = trim_chars(chars_of(album.as_str()).as_slice());
    if t.len() == 0 {
        return None;
    }
    let dir = match parent(chars_of(path).as_slice()) {
        Some(d) => d,
        None => {
            return None;
        },
    };
    let artist = match &meta.album_artist {
        Some(x) => Some(x.clone()),
        None => meta.artist.clone(),
    };
    Some(AlbumKey { title: string_from_chars(t.as_slice()), artist, dir: string_from_chars(dir.as_slice()) })
}

/// The album id of a file and the marker to write: the marker found in
/// its folder wins; else the id stored for its title and artist, else a new
/// random one, recorded in a new marker made at `now_ms`.
pub fn album_uuid_for_track(
    key: &AlbumKey,
    year: Option<i32>,
    marker_uuid: Option<String>,
    stored_uuid: Option<String>,
    now_ms: i64,
) -> (r: (String, Option<AlbumFolderMarker>))
    ensures
        match marker_uuid {
            Some(m) => r.0@ == m@ && r.1 is None,
            None => (match stored_uuid {
                Some(s) => r.0@ == s@,
                None => is_uuid_v4_text(r.0@),
            }) && (r.1 matches Some(mk) && mk.album_uuid@ == r.0@ && opt_string_view(mk.title) == Some(key.title@)
                && opt_string_view(mk.artist) == opt_string_view(key.artist) && mk.original_year == year
                && mk.created_at_ms == now_ms),
        },
{
    match marker_uuid {
        Some(m) => (m, None),
        None => {
            let id = match stored_uuid {
                Some(s) => s,
                None => random_uuid_text(),
            };
            let marker = AlbumFolderMarker {
                album_uuid: id.clone(),
                title: Some(key.title.clone()),
                artist: key.artist.clone(),
                original_year: year,
                created_at_ms: now_ms,
            };
            (id, Some(marker))
        },
    }
}

/// The marker to write for an album that has none yet: in the folder of
/// its track, with its original year or else its year; none when the track
/// has no folder.
pub fn marker_for_candidate(candidate: &AlbumMarkerCandidate, now_ms: i64) -> (r: Option<(String, AlbumFolderMarker)>)
    ensures
        match parent_of(candidate.path@) {
            None => r is None,
            Some(d) => r matches Some((dir, mk)) && dir@ == d && mk.album_uuid@ == candidate.album_uuid@ && mk.title
                == candidate.title && mk.artist == candidate.artist && mk.original_year == (match candidate.original_year {
                Some(y) => Some(y),
                None => candidate.year,
            }) && mk.created_at_ms == now_ms,
        },
{
    let dir = match parent(chars_of(candidate.path.as_str()).as_slice()) {
        Some(d) => d,
        None => {
            return None;
        },
    };
    let year = match candidate.original_year {
        Some(y) => Some(y),
        None => candidate.year,
    };
    Some(
        (
            string_from_chars(dir.as_slice()),
            AlbumFolderMarker {
                album_uuid: candidate.album_uuid.clone(),
                title: candidate.title.clone(),
                artist: candidate.artist.clone(),
                original_year: year,
                created_at_ms: now_ms,
            },
        ),
    )
}

/// The event a scan reports for a folder: its start (no track yet) or its
/// end with the number of tracks, named by the folder's name or else its
/// path; none when events are off.
pub fn scan_album_event(dir: &str, count: usize, emit_events: bool) -> (r: Option<MetadataEvent>)
    ensures
        !emit_events ==> r is None,
        emit_events ==> ({
            let name = match file_name_of(dir@) {
                Some(n) => n,
                None => dir@,
            };
            if count == 0 {
                r matches Some(MetadataEvent::LibraryScanAlbumStart { album: a }) && a@ == name
            } else {
                r matches Some(MetadataEvent::LibraryScanAlbumFinish { album: a, tracks: t }) && a@ == name && t == count
            }
        }),
{
    if !emit_events {
        return None;
    }
    let album = match file_name(dir) {
        Some(n) => n,
        None => dir.to_string(),
    };
    if count == 0 {
        Some(MetadataEvent::LibraryScanAlbumStart { album })
    } else {
        Some(MetadataEvent::LibraryScanAlbumFinish { album, tracks: count })
    }
}

/// Whether a list of paths holds this one.
pub open spec fn holds_path(v: Seq<String>, p: Seq<char>) -> bool {
    exists|i: int| 0 <= i < v.len() && #[trigger] v[i]@ == p
}

/// The stored paths a scan did not see, in order.
pub open spec fn stale_spec(stored: Seq<String>, seen: Seq<String>) -> Seq<Seq<char>>
    decreases stored.len(),
{
    if stored.len() == 0 {
        Seq::empty()
    } else {
        let rest = stale_spec(stored.drop_last(), seen);
        if holds_path(seen, stored.last()@) {
            rest
        } else {
            rest.push(stored.last()@)
        }
    }
}

fn holds(v: &Vec<String>, p: &str) -> (r: bool)
    ensures
        r == holds_path(v@, p@),
{
    let mut i: usize = 0;
    while i < v.len()
        invariant
            i <= v@.len(),
            forall|j: int| 0 <= j < i ==> #[trigger] v@[j]@ != p@,
        decreases v@.len() - i,
    {
        if str_eq(v[i].as_str(), p) {
            return true;
        }
        i = i + 1;
    }
    false
}

/// The stored tracks a full rescan deletes: those whose files it did not
/// see.
pub fn stale_track_paths(stored: &Vec<String>, seen: &Vec<String>) -> (r: Vec<String>)
    ensures
        crate::playqueue::string_views(r@) == stale_spec(stored@, seen@),
{
    let mut out: Vec<String> = Vec::new();
    let mut i: usize = 0;
    while i < stored.len()
        invariant
            i <= stored@.len(),
            crate::playqueue::string_views(out@) == stale_spec(stored@.take(i as int), seen@),
        decreases stored@.len() - i,
    {
        let ghost t = stored@.take(i + 1);
        assert(t.drop_last() =~= stored@.take(i as int));
        assert(t.last() == stored@[i as int]);
        if !holds(seen, stored[i].as_str()) {
            let ghost before = out@;
            let s = stored[i].clone();
            out.push(s);
            proof {
                crate::playqueue::lemma_views_push(before, stored@[i as int]);
            }
        }
        i = i + 1;
    }
    assert(stored@.take(stored@.len() as int) =~= stored@);
    out
}

/// The path under which a removed track is deleted: what the requested
/// path resolves to on disk (`canonical`), else the path under the root as
/// given; it must lie under the root.
pub fn removal_path(root: &str, candidate: &str, canonical: Option<String>) -> (r: Option<String>)
    ensures
        ({
            let p = match canonical {
                Some(c) => c@,
                None => candidate@,
            };
            if under_root(p, root@) {
                r matches Some(x) && x@ == p
            } else {
                r is None
            }
        }),
{
    let p = match canonical {
        Some(c) => c,
        None => candidate.to_string(),
    };
    if starts_with_root(p.as_str(), root) {
        Some(p)
    } else {
        None
    }
}

} // verus!
