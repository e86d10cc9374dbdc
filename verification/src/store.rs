//! Metadata store records and the decisions taken around its queries: what
//! an upsert of a scanned track writes, which MusicBrainz fields a match
//! updates, and which schema migrations a stored version needs.

use vstd::prelude::*;
use crate::musicbrainz::{views, MusicBrainzMatch};
use crate::paths::{join, join_spec};
use crate::json::{decode_string_list, encode_string_list, json_string_array, json_string_array_value};
use crate::tags::{blank, is_blank, opt_string_view};
use crate::media::opt_str_view as opt_view;
use crate::strings::{chars_of, string_from_chars, to_lowercase, unicode_lowercase};
use crate::text::{chars_eq, decimal, parse_i32_chars, parse_i32_spec, push_decimal_i64, push_str_chars};

verus! {

/// Current metadata schema version.
pub const SCHEMA_VERSION: i32 = 10;

/// Track record used for upsert and update operations.
#[derive(Debug, Clone)]
pub struct TrackRecord {
    /// Absolute or media-root-relative file path.
    pub path: String,
    /// File name for display.
    pub file_name: String,
    pub title: Option<String>,
    pub artist: Option<String>,
    pub album_artist: Option<String>,
    pub album: Option<String>,
    /// Stable album UUID for grouping.
    pub album_uuid: Option<String>,
    pub track_number: Option<u32>,
    pub disc_number: Option<u32>,
    pub year: Option<i32>,
    pub duration_ms: Option<u64>,
    pub sample_rate: Option<u32>,
    pub bit_depth: Option<u32>,
    pub format: Option<String>,
    /// File mtime (unix ms).
    pub mtime_ms: i64,
    pub size_bytes: i64,
}

/// Artist row returned by list queries.
#[derive(Debug, Clone)]
pub struct ArtistSummary {
    pub id: i64,
    pub uuid: Option<String>,
    pub name: String,
    pub sort_name: Option<String>,
    pub mbid: Option<String>,
    pub album_count: i64,
    pub track_count: i64,
}

/// Album row returned by list queries.
#[derive(Debug, Clone)]
pub struct AlbumSummary {
    pub id: i64,
    pub uuid: Option<String>,
    pub title: String,
    pub artist: Option<String>,
    pub artist_id: Option<i64>,
    pub year: Option<i32>,
    pub original_year: Option<i32>,
    pub edition_year: Option<i32>,
    pub edition_label: Option<String>,
    pub mbid: Option<String>,
    pub track_count: i64,
    pub cover_art_path: Option<String>,
    pub cover_art_url: Option<String>,
    /// At least one track of the album has a bit depth of 24 or more.
    pub hi_res: bool,
}

/// Track row returned by list queries.
#[derive(Debug, Clone)]
pub struct TrackSummary {
    pub id: i64,
    pub file_name: String,
    pub title: Option<String>,
    pub artist: Option<String>,
    pub album: Option<String>,
    pub track_number: Option<u32>,
    pub disc_number: Option<u32>,
    pub duration_ms: Option<u64>,
    pub format: Option<String>,
    pub sample_rate: Option<u32>,
    pub bit_depth: Option<u32>,
    pub mbid: Option<String>,
    pub cover_art_url: Option<String>,
}

/// Representative path of an album, for writing album marker files.
#[derive(Debug, Clone)]
pub struct AlbumMarkerCandidate {
    pub album_uuid: String,
    pub title: Option<String>,
    pub artist: Option<String>,
    pub original_year: Option<i32>,
    pub year: Option<i32>,
    pub path: String,
}

/// Text of an artist biography or album notes.
#[derive(Debug, Clone)]
pub struct TextEntry {
    pub lang: String,
    pub text: String,
    pub source: Option<String>,
    /// Protected against overwrites.
    pub locked: bool,
    pub updated_at_ms: Option<i64>,
}

/// Stored image of an artist or album.
#[derive(Debug, Clone)]
pub struct MediaAssetRecord {
    pub id: i64,
    pub owner_type: String,
    pub owner_id: i64,
    pub kind: String,
    pub local_path: String,
    pub checksum: Option<String>,
    pub source_url: Option<String>,
    pub updated_at_ms: Option<i64>,
}

/// Track still missing a MusicBrainz binding.
#[derive(Debug, Clone)]
pub struct MusicBrainzCandidate {
    pub path: String,
    pub title: String,
    pub artist: String,
    pub album: Option<String>,
    pub album_artist: Option<String>,
    /// Key of the last lookup that found nothing.
    pub no_match_key: Option<String>,
}

/// Album whose cover art is still to be fetched.
#[derive(Debug, Clone)]
pub struct CoverArtCandidate {
    pub album_id: i64,
    pub mbid: String,
}

/// What the store holds for a track path before an upsert.
pub struct ExistingTrack {
    pub mtime_ms: i64,
    pub size_bytes: i64,
    pub artist_id: Option<i64>,
    pub album_id: Option<i64>,
    pub track_mbid: Option<String>,
    pub artist_mbid: Option<String>,
    pub album_mbid: Option<String>,
    pub album_title: Option<String>,
    pub album_artist: Option<String>,
    pub disc_number: Option<u32>,
    pub bit_depth: Option<u32>,
}

/// How the track's artist link is written.
pub enum ArtistStep {
    /// Insert the artist of this name if missing and link it.
    Upsert(String),
    /// Keep the existing link (none for a new track).
    Keep(Option<i64>),
}

/// How the track's album link is written.
pub enum AlbumStep {
    /// Keep the existing album link.
    Keep(Option<i64>),
    /// Insert or update the album with this UUID and title.
    UpsertWithUuid { uuid: String, title: String },
    /// Insert the album of this title (and album artist) if missing.
    Upsert { title: String },
    /// No album.
    Clear,
}

/// What an upsert of a track writes.
pub enum UpsertPlan {
    /// The stored row already matches: nothing to write.
    Unchanged,
    /// Write the track row with these links; `album_artist` is the name of
    /// the album artist to insert if missing.
    Write { artist: ArtistStep, album_artist: Option<String>, album: AlbumStep },
}

/// The album artist a record asks for: its album artist, else its artist.
pub open spec fn desired_album_artist(record: TrackRecord) -> Option<String> {
    match record.album_artist {
        Some(a) => Some(a),
        None => record.artist,
    }
}

/// The stored row matches the scanned record in everything an upsert
/// compares.
pub open spec fn same_as_stored(record: TrackRecord, e: ExistingTrack) -> bool {
    &&& e.mtime_ms == record.mtime_ms
    &&& e.size_bytes == record.size_bytes
    &&& opt_string_view(record.album) == opt_string_view(e.album_title)
    &&& opt_string_view(desired_album_artist(record)) == opt_string_view(e.album_artist)
    &&& record.disc_number == e.disc_number
    &&& record.bit_depth == e.bit_depth
}

/// The upsert of a scanned track: nothing when the stored row matches;
/// otherwise the artist by name (or the stored link), the album artist by
/// name, and the album: the stored link when the track or its album is
/// already bound to MusicBrainz, else by UUID or title when the record has
/// an album.
pub open spec fn upsert_plan_spec(record: TrackRecord, existing: Option<ExistingTrack>) -> UpsertPlan {
    if existing is Some && same_as_stored(record, existing->0) {
        UpsertPlan::Unchanged
    } else {
        let (stored_artist, stored_album, keep_album) = match existing {
            Some(e) => (
                e.artist_id,
                e.album_id,
                !blank(opt_string_view(e.track_mbid)) || !blank(opt_string_view(e.album_mbid)),
            ),
            None => (None, None, false),
        };
        UpsertPlan::Write {
            artist: match record.artist {
                Some(name) => ArtistStep::Upsert(name),
                None => ArtistStep::Keep(stored_artist),
            },
            album_artist: desired_album_artist(record),
            album: if keep_album {
                AlbumStep::Keep(stored_album)
            } else {
                match record.album {
                    Some(title) => match record.album_uuid {
                        Some(uuid) => AlbumStep::UpsertWithUuid { uuid, title },
                        None => AlbumStep::Upsert { title },
                    },
                    None => AlbumStep::Clear,
                }
            },
        }
    }
}

fn opt_eq(a: &Option<String>, b: &Option<String>) -> (r: bool)
    ensures
        r == (opt_string_view(*a) == opt_string_view(*b)),
{
    match (a, b) {
        (Some(x), Some(y)) => *x == *y,
        (None, None) => true,
        _ => false,
    }
}

fn clone_opt(a: &Option<String>) -> (r: Option<String>)
    ensures
        r == *a,
{
    match a {
        Some(s) => Some(s.clone()),
        None => None,
    }
}

/// Decides what an upsert of a scanned track writes, from what the store
/// holds for its path.
pub fn plan_upsert(record: &TrackRecord, existing: Option<ExistingTrack>) -> (r: UpsertPlan)
    ensures
        r == upsert_plan_spec(*record, existing),
{
    let desired = if record.album_artist.is_some() {
        clone_opt(&record.album_artist)
    } else {
        clone_opt(&record.artist)
    };
    let (stored_artist, stored_album, keep_album) = match &existing {
        Some(e) => {
            let same = e.mtime_ms == record.mtime_ms && e.size_bytes == record.size_bytes
                && opt_eq(&record.album, &e.album_title) && opt_eq(&desired, &e.album_artist)
                && record.disc_number == e.disc_number && record.bit_depth == e.bit_depth;
            if same {
                return UpsertPlan::Unchanged;
            }
            (e.artist_id, e.album_id, !is_blank(&e.track_mbid) || !is_blank(&e.album_mbid))
        },
        None => (None, None, false),
    };
    let artist = match &record.artist {
        Some(name) => ArtistStep::Upsert(name.clone()),
        None => ArtistStep::Keep(stored_artist),
    };
    let album = if keep_album {
        AlbumStep::Keep(stored_album)
    } else {
        match &record.album {
            Some(title) => match &record.album_uuid {
                Some(uuid) => AlbumStep::UpsertWithUuid { uuid: uuid.clone(), title: title.clone() },
                None => AlbumStep::Upsert { title: title.clone() },
            },
            None => AlbumStep::Clear,
        }
    };
    UpsertPlan::Write { artist, album_artist: desired, album }
}


/// One write that applying a MusicBrainz match makes. With `overwrite`
/// unset, an id is only written where none is stored yet; an album id
/// written with `overwrite` also drops the stored cover.
pub enum StoreUpdate {
    ArtistMbid { artist_id: i64, mbid: String, overwrite: bool },
    /// Written only where the artist has no sort name yet.
    ArtistSortName { artist_id: i64, sort_name: String },
    AlbumMbid { album_id: i64, mbid: String, overwrite: bool },
    AlbumYear { album_id: i64, year: i32, overwrite: bool },
    /// Release ids to fall back on for cover art, as a JSON array.
    AlbumReleaseCandidates { album_id: i64, candidates_json: String },
    TrackMbid { mbid: String, overwrite: bool },
}

/// Writes for the artist of a track: its id, then its sort name.
pub open spec fn artist_updates_spec(artist_id: Option<i64>, mb: MusicBrainzMatch, overwrite: bool, with_sort_name: bool) -> Seq<StoreUpdate> {
    match (artist_id, mb.artist_mbid) {
        (Some(id), Some(m)) => seq![StoreUpdate::ArtistMbid { artist_id: id, mbid: m, overwrite }]
            + if with_sort_name {
            match mb.artist_sort_name {
                Some(n) => seq![StoreUpdate::ArtistSortName { artist_id: id, sort_name: n }],
                None => Seq::empty(),
            }
        } else {
            Seq::empty()
        },
        _ => Seq::empty(),
    }
}

/// Write of a release year, if the match has one.
pub open spec fn year_update_spec(album_id: i64, mb: MusicBrainzMatch, overwrite: bool) -> Seq<StoreUpdate> {
    match mb.release_year {
        Some(y) => seq![StoreUpdate::AlbumYear { album_id, year: y, overwrite }],
        None => Seq::empty(),
    }
}

/// The writes that apply a match to a track: artist id and sort name when
/// the artist is known, album id, year and release candidates when the
/// album is known and the match names one, and the recording id.
pub open spec fn track_updates_spec(
    artist_id: Option<i64>,
    album_id: Option<i64>,
    mb: MusicBrainzMatch,
    overwrite: bool,
    candidates_json: Option<String>,
) -> Seq<StoreUpdate> {
    let album_part = match (album_id, mb.album_mbid) {
        (Some(id), Some(m)) => seq![StoreUpdate::AlbumMbid { album_id: id, mbid: m, overwrite }]
            + year_update_spec(id, mb, overwrite) + if mb.release_candidates@.len() > 0 {
            match candidates_json {
                Some(j) => seq![StoreUpdate::AlbumReleaseCandidates { album_id: id, candidates_json: j }],
                None => Seq::empty(),
            }
        } else {
            Seq::empty()
        },
        _ => Seq::empty(),
    };
    let track_part = match mb.recording_mbid {
        Some(m) => seq![StoreUpdate::TrackMbid { mbid: m, overwrite }],
        None => Seq::empty(),
    };
    artist_updates_spec(artist_id, mb, overwrite, true) + album_part + track_part
}

/// The writes that apply a match to an album: artist id, album id, year.
pub open spec fn album_updates_spec(artist_id: Option<i64>, album_id: i64, mb: MusicBrainzMatch, overwrite: bool) -> Seq<StoreUpdate> {
    artist_updates_spec(artist_id, mb, overwrite, false) + match mb.album_mbid {
        Some(m) => seq![StoreUpdate::AlbumMbid { album_id, mbid: m, overwrite }],
        None => Seq::empty(),
    } + year_update_spec(album_id, mb, overwrite)
}

fn push_artist_updates(
    out: &mut Vec<StoreUpdate>,
    artist_id: Option<i64>,
    mb: &MusicBrainzMatch,
    overwrite: bool,
    with_sort_name: bool,
)
    ensures
        final(out)@ == old(out)@ + artist_updates_spec(artist_id, *mb, overwrite, with_sort_name),
{
    let ghost before = out@;
    if let (Some(id), Some(m)) = (artist_id, &mb.artist_mbid) {
        out.push(StoreUpdate::ArtistMbid { artist_id: id, mbid: m.clone(), overwrite });
        if with_sort_name {
            if let Some(n) = &mb.artist_sort_name {
                out.push(StoreUpdate::ArtistSortName { artist_id: id, sort_name: n.clone() });
            }
        }
    }
    assert(out@ =~= before + artist_updates_spec(artist_id, *mb, overwrite, with_sort_name));
}

fn push_year_update(out: &mut Vec<StoreUpdate>, album_id: i64, mb: &MusicBrainzMatch, overwrite: bool)
    ensures
        final(out)@ == old(out)@ + year_update_spec(album_id, *mb, overwrite),
{
    let ghost before = out@;
    if let Some(y) = mb.release_year {
        out.push(StoreUpdate::AlbumYear { album_id, year: y, overwrite });
    }
    assert(out@ =~= before + year_update_spec(album_id, *mb, overwrite));
}

/// Lists the writes that apply a match to a track, given the track's
/// artist and album ids and the release candidates already encoded.
pub fn track_updates(
    artist_id: Option<i64>,
    album_id: Option<i64>,
    mb: &MusicBrainzMatch,
    overwrite: bool,
    candidates_json: Option<String>,
) -> (r: Vec<StoreUpdate>)
    ensures
        r@ == track_updates_spec(artist_id, album_id, *mb, overwrite, candidates_json),
{
    let mut out: Vec<StoreUpdate> = Vec::new();
    push_artist_updates(&mut out, artist_id, mb, overwrite, true);
    let ghost after_artist = out@;
    if let (Some(id), Some(m)) = (album_id, &mb.album_mbid) {
        out.push(StoreUpdate::AlbumMbid { album_id: id, mbid: m.clone(), overwrite });
        push_year_update(&mut out, id, mb, overwrite);
        if mb.release_candidates.len() > 0 {
            if let Some(j) = candidates_json {
                out.push(StoreUpdate::AlbumReleaseCandidates { album_id: id, candidates_json: j });
            }
        }
    }
    let ghost after_album = out@;
    if let Some(m) = &mb.recording_mbid {
        out.push(StoreUpdate::TrackMbid { mbid: m.clone(), overwrite });
    }
    assert(out@ =~= track_updates_spec(artist_id, album_id, *mb, overwrite, candidates_json));
    out
}

/// Lists the writes that apply a match to an album.
pub fn album_updates(artist_id: Option<i64>, album_id: i64, mb: &MusicBrainzMatch, overwrite: bool) -> (r: Vec<StoreUpdate>)
    ensures
        r@ == album_updates_spec(artist_id, album_id, *mb, overwrite),
{
    let mut out: Vec<StoreUpdate> = Vec::new();
    push_artist_updates(&mut out, artist_id, mb, overwrite, false);
    let ghost after_artist = out@;
    if let Some(m) = &mb.album_mbid {
        out.push(StoreUpdate::AlbumMbid { album_id, mbid: m.clone(), overwrite });
    }
    let ghost after_album = out@;
    push_year_update(&mut out, album_id, mb, overwrite);
    assert(out@ =~= album_updates_spec(artist_id, album_id, *mb, overwrite));
    out
}

/// Step of bringing the metadata schema up to date.
#[derive(Debug, Clone, Copy, PartialEq, Eq, Structural)]
pub enum SchemaStep {
    /// Create every table and index that does not exist yet.
    CreateTables,
    /// Record the current version in a fresh store.
    InsertVersion,
    EnsureUuidIndexes,
    AddNoMatchKey,
    AddCoverArtFailure,
    AddReleaseCandidates,
    AddBitDepth,
    CreateProfileTables,
    DropHistoryTables,
    AddUuidColumns,
    BackfillUuids,
    AddEditionColumns,
    AddOrphanedAt,
    /// Record the current version in place of the stored one.
    UpdateVersion,
}

/// Migration steps from a stored version: a fresh store records the current
/// version; a store below version 2 or 3 gets that one migration only; from
/// version 3 on, every later migration applies in turn.
pub open spec fn migration_spec(version: Option<i32>) -> Seq<SchemaStep> {
    match version {
        None => seq![SchemaStep::InsertVersion, SchemaStep::EnsureUuidIndexes],
        Some(v) => if v < 2 {
            seq![SchemaStep::AddNoMatchKey, SchemaStep::UpdateVersion]
        } else if v < 3 {
            seq![SchemaStep::AddCoverArtFailure, SchemaStep::UpdateVersion]
        } else {
            (if v < 4 {
                seq![SchemaStep::AddReleaseCandidates, SchemaStep::UpdateVersion]
            } else {
                Seq::empty()
            }) + (if v < 5 {
                seq![SchemaStep::AddBitDepth, SchemaStep::UpdateVersion]
            } else {
                Seq::empty()
            }) + (if v < 6 {
                seq![SchemaStep::CreateProfileTables, SchemaStep::UpdateVersion]
            } else {
                Seq::empty()
            }) + (if v < 7 {
                seq![SchemaStep::DropHistoryTables, SchemaStep::UpdateVersion]
            } else {
                Seq::empty()
            }) + (if v < 8 {
                seq![
                    SchemaStep::AddUuidColumns,
                    SchemaStep::EnsureUuidIndexes,
                    SchemaStep::BackfillUuids,
                    SchemaStep::UpdateVersion,
                ]
            } else {
                Seq::empty()
            }) + (if v < 9 {
                seq![SchemaStep::AddEditionColumns, SchemaStep::UpdateVersion]
            } else {
                Seq::empty()
            }) + (if v < 10 {
                seq![SchemaStep::AddOrphanedAt, SchemaStep::UpdateVersion]
            } else {
                Seq::empty()
            })
        },
    }
}

/// The steps that bring a store up to date: the tables first, then the
/// migrations for the stored version string (an unreadable one counts as
/// none).
pub open spec fn schema_plan_spec(version_raw: Option<Seq<char>>) -> Seq<SchemaStep> {
    seq![SchemaStep::CreateTables] + migration_spec(
        match version_raw {
            Some(v) => parse_i32_spec(v),
            None => None,
        },
    )
}

fn push_pair(out: &mut Vec<SchemaStep>, a: SchemaStep, b: SchemaStep)
    ensures
        final(out)@ == old(out)@ + seq![a, b],
{
    out.push(a);
    out.push(b);
}

/// Lists the schema steps for the stored version string.
pub fn schema_plan(version_raw: Option<&str>) -> (r: Vec<SchemaStep>)
    ensures
        r@ == schema_plan_spec(opt_view(version_raw)),
{
    let mut out: Vec<SchemaStep> = Vec::new();
    out.push(SchemaStep::CreateTables);
    let version = match version_raw {
        Some(v) => {
            let c = chars_of(v);
            parse_i32_chars(c.as_slice())
        },
        None => None,
    };
    let ghost start = out@;
    match version {
        None => {
            push_pair(&mut out, SchemaStep::InsertVersion, SchemaStep::EnsureUuidIndexes);
        },
        Some(v) => {
            if v < 2 {
                push_pair(&mut out, SchemaStep::AddNoMatchKey, SchemaStep::UpdateVersion);
            } else if v < 3 {
                push_pair(&mut out, SchemaStep::AddCoverArtFailure, SchemaStep::UpdateVersion);
            } else {
                let ghost s0 = out@;
                if v < 4 {
                    push_pair(&mut out, SchemaStep::AddReleaseCandidates, SchemaStep::UpdateVersion);
                }
                let ghost s1 = out@;
                if v < 5 {
                    push_pair(&mut out, SchemaStep::AddBitDepth, SchemaStep::UpdateVersion);
                }
                let ghost s2 = out@;
                if v < 6 {
                    push_pair(&mut out, SchemaStep::CreateProfileTables, SchemaStep::UpdateVersion);
                }
                let ghost s3 = out@;
                if v < 7 {
                    push_pair(&mut out, SchemaStep::DropHistoryTables, SchemaStep::UpdateVersion);
                }
                let ghost s4 = out@;
                if v < 8 {
                    push_pair(&mut out, SchemaStep::AddUuidColumns, SchemaStep::EnsureUuidIndexes);
                    push_pair(&mut out, SchemaStep::BackfillUuids, SchemaStep::UpdateVersion);
                }
                let ghost s5 = out@;
                if v < 9 {
                    push_pair(&mut out, SchemaStep::AddEditionColumns, SchemaStep::UpdateVersion);
                }
                let ghost s6 = out@;
                if v < 10 {
                    push_pair(&mut out, SchemaStep::AddOrphanedAt, SchemaStep::UpdateVersion);
                }
                assert(out@ =~= s0 + migration_spec(Some(v)));
            }
        },
    }
    assert(out@ =~= schema_plan_spec(opt_view(version_raw)));
    out
}


/// Failure of a store decision.
#[derive(Debug, Clone, Copy, PartialEq, Eq, Structural)]
pub enum StoreError {
    /// A list of release ids could not be encoded as JSON (`serde_json`
    /// never fails on a list of strings, so no decision here returns it).
    Encoding,
}

/// Whether applying the match to a track writes release candidates.
pub open spec fn writes_candidates(album_id: Option<i64>, mb: MusicBrainzMatch) -> bool {
    album_id is Some && mb.album_mbid is Some && mb.release_candidates@.len() > 0
}

/// Lists the writes that apply a match to a track, with its release
/// candidates encoded as a JSON array; encoding a list of strings always
/// succeeds, so this does too.
pub fn track_updates_for_match(
    artist_id: Option<i64>,
    album_id: Option<i64>,
    mb: &MusicBrainzMatch,
    overwrite: bool,
) -> (r: Result<Vec<StoreUpdate>, StoreError>)
    ensures
        r is Ok,
        r matches Ok(v) ==> exists|j: Option<String>|
            v@ == #[trigger] track_updates_spec(artist_id, album_id, *mb, overwrite, j) && opt_string_view(j) == (
            if writes_candidates(album_id, *mb) {
                Some(json_string_array(views(mb.release_candidates@)))
            } else {
                None
            }),
{
    let candidates_json = if album_id.is_some() && mb.album_mbid.is_some()
        && mb.release_candidates.len() > 0 {
        match encode_string_list(&mb.release_candidates) {
            Ok(j) => Some(j),
            Err(_) => {
                return Err(StoreError::Encoding);
            },
        }
    } else {
        None
    };
    let ghost j = candidates_json;
    let v = track_updates(artist_id, album_id, mb, overwrite, candidates_json);
    assert(v@ == track_updates_spec(artist_id, album_id, *mb, overwrite, j));
    assert(opt_string_view(j) == (if writes_candidates(album_id, *mb) {
        Some(json_string_array(views(mb.release_candidates@)))
    } else {
        None
    }));
    Ok(v)
}

/// Release ids stored for an album, read from their JSON text (unreadable
/// or missing text gives none).
pub open spec fn stored_candidates(raw: Option<Seq<char>>) -> Seq<Seq<char>> {
    match raw {
        Some(t) => match json_string_array_value(t) {
            Some(l) => l,
            None => Seq::empty(),
        },
        None => Seq::empty(),
    }
}

/// The next release id to try for an album's cover, with the JSON text of
/// the ids left after it (none when no id is left); none when no id is
/// stored. Encoding the ids left always succeeds, so this never fails.
pub fn next_cover_candidate(raw: Option<&str>) -> (r: Result<Option<(String, Option<String>)>, StoreError>)
    ensures
        stored_candidates(opt_view(raw)).len() == 0 ==> r == Ok::<Option<(String, Option<String>)>, StoreError>(None),
        stored_candidates(opt_view(raw)).len() == 1 ==> (r matches Ok(Some((next, rest))) && next@
            == stored_candidates(opt_view(raw))[0] && rest is None),
        stored_candidates(opt_view(raw)).len() > 1 ==> (r matches Ok(Some((next, Some(j)))) && next@
            == stored_candidates(opt_view(raw))[0] && j@ == json_string_array(
            stored_candidates(opt_view(raw)).drop_first(),
        )),
{
    let list = match raw {
        Some(t) => match decode_string_list(t) {
            Some(l) => l,
            None => Vec::new(),
        },
        None => Vec::new(),
    };
    if list.len() == 0 {
        return Ok(None);
    }
    let ghost all = views(list@);
    let mut rest = list;
    let next = rest.remove(0);
    proof {
        assert(views(rest@) =~= all.drop_first());
    }
    if rest.len() == 0 {
        return Ok(Some((next, None)));
    }
    match encode_string_list(&rest) {
        Ok(j) => Ok(Some((next, Some(j)))),
        Err(_) => Err(StoreError::Encoding),
    }
}


/// A value that is present and not whitespace-only.
pub open spec fn non_blank_spec(value: Option<Seq<char>>) -> Option<Seq<char>> {
    if blank(value) {
        None
    } else {
        value
    }
}

/// Drops a missing or whitespace-only value (a stored cover path).
pub fn non_blank(value: Option<String>) -> (r: Option<String>)
    ensures
        opt_string_view(r) == non_blank_spec(opt_string_view(value)),
        r is Some ==> r == value,
{
    if is_blank(&value) {
        None
    } else {
        value
    }
}

/// Served cover URL of an album: `/albums/{id}/cover`, when it has a cover.
pub open spec fn album_cover_url_spec(album_id: i64, cover_path: Option<Seq<char>>) -> Option<Seq<char>> {
    if blank(cover_path) {
        None
    } else {
        Some("/albums/"@ + decimal(album_id as int) + "/cover"@)
    }
}

/// Served cover URL of a track: `/tracks/{id}/cover`, when its album has a
/// cover.
pub open spec fn track_cover_url_spec(track_id: i64, cover_path: Option<Seq<char>>) -> Option<Seq<char>> {
    if blank(cover_path) {
        None
    } else {
        Some("/tracks/"@ + decimal(track_id as int) + "/cover"@)
    }
}

fn cover_url(prefix: &str, id: i64, cover_path: &Option<String>) -> (r: Option<String>)
    ensures
        opt_string_view(r) == if blank(opt_string_view(*cover_path)) {
            None
        } else {
            Some(prefix@ + decimal(id as int) + "/cover"@)
        },
{
    if is_blank(cover_path) {
        return None;
    }
    let mut out: Vec<char> = Vec::new();
    push_str_chars(&mut out, prefix);
    push_decimal_i64(&mut out, id);
    push_str_chars(&mut out, "/cover");
    Some(string_from_chars(out.as_slice()))
}

/// Cover URL listed for an album.
pub fn album_cover_url(album_id: i64, cover_path: &Option<String>) -> (r: Option<String>)
    ensures
        opt_string_view(r) == album_cover_url_spec(album_id, opt_string_view(*cover_path)),
{
    cover_url("/albums/", album_id, cover_path)
}

/// Cover URL listed for a track.
pub fn track_cover_url(track_id: i64, cover_path: &Option<String>) -> (r: Option<String>)
    ensures
        opt_string_view(r) == track_cover_url_spec(track_id, opt_string_view(*cover_path)),
{
    cover_url("/tracks/", track_id, cover_path)
}

/// An album is hi-res when its deepest track has at least 24 bits.
pub fn is_hi_res(max_bit_depth: Option<i64>) -> (r: bool)
    ensures
        r == match max_bit_depth {
            Some(d) => d >= 24,
            None => false,
        },
{
    match max_bit_depth {
        Some(d) => d >= 24,
        None => false,
    }
}

/// Pattern that finds a search term anywhere, ignoring case:
/// `%term%` with the term lowercased.
pub open spec fn search_pattern_spec(search: Option<Seq<char>>) -> Option<Seq<char>> {
    match search {
        Some(s) => Some(seq!['%'] + unicode_lowercase(s) + seq!['%']),
        None => None,
    }
}

/// Builds the `LIKE` pattern of a list query's search term.
pub fn search_pattern(search: Option<&str>) -> (r: Option<String>)
    ensures
        opt_string_view(r) == search_pattern_spec(opt_view(search)),
{
    match search {
        Some(s) => {
            let l = to_lowercase(s);
            let mut out: Vec<char> = Vec::new();
            out.push('%');
            push_str_chars(&mut out, l.as_str());
            out.push('%');
            Some(string_from_chars(out.as_slice()))
        },
        None => None,
    }
}

/// Whether an album found by UUID must be rewritten: its title differs, or
/// an artist or year is given that differs from the stored one.
pub open spec fn album_needs_update_spec(
    current_title: Option<Seq<char>>,
    current_artist_id: Option<i64>,
    current_year: Option<i32>,
    title: Seq<char>,
    artist_id: Option<i64>,
    year: Option<i32>,
) -> bool {
    current_title != Some(title) || (artist_id is Some && current_artist_id != artist_id) || (year is Some
        && current_year != year)
}

/// Decides whether an album found by UUID needs its row rewritten.
pub fn album_needs_update(
    current_title: &Option<String>,
    current_artist_id: Option<i64>,
    current_year: Option<i32>,
    title: &str,
    artist_id: Option<i64>,
    year: Option<i32>,
) -> (r: bool)
    ensures
        r == album_needs_update_spec(
            opt_string_view(*current_title),
            current_artist_id,
            current_year,
            title@,
            artist_id,
            year,
        ),
{
    let title_differs = match current_title {
        Some(t) => {
            let a = chars_of(t.as_str());
            let b = chars_of(title);
            !chars_eq(a.as_slice(), b.as_slice())
        },
        None => true,
    };
    let artist_differs = match artist_id {
        Some(_) => current_artist_id != artist_id,
        None => false,
    };
    let year_differs = match year {
        Some(_) => current_year != year,
        None => false,
    };
    title_differs || artist_differs || year_differs
}


/// Path of the metadata store under a media root:
/// `{root}/.audio-hub/metadata.sqlite`.
pub open spec fn db_path_spec(media_root: Seq<char>) -> Seq<char> {
    join_spec(join_spec(media_root, ".audio-hub"@), "metadata.sqlite"@)
}

/// Places the metadata store under the media root.
pub fn db_path_for(media_root: &str) -> (r: String)
    ensures
        r@ == db_path_spec(media_root@),
{
    let root = chars_of(media_root);
    let dir = chars_of(".audio-hub");
    let file = chars_of("metadata.sqlite");
    let a = join(root.as_slice(), dir.as_slice());
    let b = join(a.as_slice(), file.as_slice());
    string_from_chars(b.as_slice())
}

} // verus!
