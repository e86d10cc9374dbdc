//! The in-memory library index (directory listings of the media root) and
//! the metadata read from a file's tags.

use vstd::prelude::*;
use crate::models::LibraryEntry;
use crate::paths::{extension, extension_of, file_name, file_name_of};
use crate::media::{is_supported_extension, supported_extension};
use crate::rootpaths::{parent_key, parent_key_spec, path_key, path_key_spec};
use crate::strings::{chars_of, string_from_chars};
use crate::table::StringTable;
use crate::tags::{bool_tag, i32_tag, opt_string_view, parse_bool_tag, parse_i32_tag, parse_u32_tag, u32_tag};
use crate::text::{lower_chars, lower_seq, upper_chars, upper_seq};
use crate::strings::{to_lowercase, unicode_lowercase};
use crate::order::{code_point_le, keyed_view, law_text_keys_ascend, lemma_sorted_by_text, sort_by_text_key, sorted_by_text};

verus! {

/// Largest embedded cover image kept, in bytes.
pub const MAX_COVER_ART_BYTES: usize = 5000000;

/// Embedded cover image of a file.
#[derive(Clone, Debug)]
pub struct CoverArt {
    pub mime_type: String,
    pub data: Vec<u8>,
}

/// Metadata of an audio file.
#[derive(Clone, Debug)]
pub struct TrackMeta {
    pub duration_ms: Option<u64>,
    pub sample_rate: Option<u32>,
    pub bit_depth: Option<u32>,
    pub album: Option<String>,
    pub artist: Option<String>,
    pub album_artist: Option<String>,
    pub compilation: bool,
    pub title: Option<String>,
    pub track_number: Option<u32>,
    pub disc_number: Option<u32>,
    pub year: Option<i32>,
    pub format: Option<String>,
    pub cover_art: Option<CoverArt>,
}

/// Standard tags that the library reads.
#[derive(Clone, Copy, Debug, PartialEq, Eq, Structural)]
pub enum StdTag {
    Album,
    AlbumArtist,
    Compilation,
    Artist,
    TrackTitle,
    TrackNumber,
    DiscNumber,
    Date,
    Other,
}

/// Tag values gathered so far.
pub struct TagFields {
    pub album: Option<Seq<char>>,
    pub album_artist: Option<Seq<char>>,
    pub compilation: bool,
    pub artist: Option<Seq<char>>,
    pub title: Option<Seq<char>>,
    pub track_number: Option<u32>,
    pub disc_number: Option<u32>,
    pub year: Option<i32>,
}

/// Reads one tag: text tags keep their first value; numbers keep the first
/// value that parses; the compilation flag, once set, stays.
pub open spec fn apply_tag(f: TagFields, key: StdTag, value: Seq<char>) -> TagFields {
    match key {
        StdTag::Album => TagFields { album: if f.album is None { Some(value) } else { f.album }, ..f },
        StdTag::AlbumArtist => TagFields {
            album_artist: if f.album_artist is None {
                Some(value)
            } else {
                f.album_artist
            },
            ..f
        },
        StdTag::Compilation => TagFields {
            compilation: if !f.compilation {
                bool_tag(value)
            } else {
                f.compilation
            },
            ..f
        },
        StdTag::Artist => TagFields { artist: if f.artist is None { Some(value) } else { f.artist }, ..f },
        StdTag::TrackTitle => TagFields { title: if f.title is None { Some(value) } else { f.title }, ..f },
        StdTag::TrackNumber => TagFields {
            track_number: if f.track_number is None {
                u32_tag(value)
            } else {
                f.track_number
            },
            ..f
        },
        StdTag::DiscNumber => TagFields {
            disc_number: if f.disc_number is None {
                u32_tag(value)
            } else {
                f.disc_number
            },
            ..f
        },
        StdTag::Date => TagFields { year: if f.year is None { i32_tag(value) } else { f.year }, ..f },
        StdTag::Other => f,
    }
}

/// Tag values read from a list of tags, in order.
pub open spec fn read_tags(tags: Seq<(StdTag, String)>) -> TagFields
    decreases tags.len(),
{
    if tags.len() == 0 {
        TagFields {
            album: None,
            album_artist: None,
            compilation: false,
            artist: None,
            title: None,
            track_number: None,
            disc_number: None,
            year: None,
        }
    } else {
        apply_tag(read_tags(tags.drop_last()), tags.last().0, tags.last().1@)
    }
}

/// Duration from a frame count and sample rate, in milliseconds.
pub open spec fn duration_spec(frames: Option<u64>, rate: Option<u32>) -> Option<u64> {
    match (frames, rate) {
        (Some(f), Some(r)) => if r > 0 {
            Some(
                (if f * 1000 > u64::MAX {
                    u64::MAX as int
                } else {
                    f * 1000
                } / (r as int)) as u64,
            )
        } else {
            None
        },
        _ => None,
    }
}

/// The metadata of a file: its format from the extension (uppercased,
/// none when there is none), its stream parameters, its tags, and its
/// album artist: `Various Artists` for a compilation, else the album artist
/// tag, else the artist.
pub open spec fn meta_spec(
    ext_hint: Seq<char>,
    sample_rate: Option<u32>,
    bits_per_sample: Option<u32>,
    frames: Option<u64>,
    tags: Seq<(StdTag, String)>,
) -> (TagFields, Option<Seq<char>>, Option<u64>) {
    let f = read_tags(tags);
    (
        TagFields {
            album_artist: if f.compilation {
                Some("Various Artists"@)
            } else if f.album_artist is None {
                f.artist
            } else {
                f.album_artist
            },
            ..f
        },
        if ext_hint.len() == 0 {
            None
        } else {
            Some(upper_seq(ext_hint))
        },
        duration_spec(frames, sample_rate),
    )
}

/// The tag values of a file's metadata, as plain values.
pub open spec fn meta_fields(m: TrackMeta) -> TagFields {
    TagFields {
        album: opt_string_view(m.album),
        album_artist: opt_string_view(m.album_artist),
        compilation: m.compilation,
        artist: opt_string_view(m.artist),
        title: opt_string_view(m.title),
        track_number: m.track_number,
        disc_number: m.disc_number,
        year: m.year,
    }
}

fn copy_opt(v: &Option<String>) -> (r: Option<String>)
    ensures
        r == *v,
{
    match v {
        Some(s) => Some(s.clone()),
        None => None,
    }
}

fn text(s: &str) -> (r: String)
    ensures
        r@ == s@,
{
    string_from_chars(chars_of(s).as_slice())
}

/// Builds a file's metadata from what its probe read: the stream
/// parameters, the tags of its current metadata revision in order, and the
/// chosen cover image. A file that could not be probed has no parameters,
/// no tags and no cover.
pub fn assemble_track_meta(
    ext_hint: &str,
    sample_rate: Option<u32>,
    bits_per_sample: Option<u32>,
    frames: Option<u64>,
    tags: &Vec<(StdTag, String)>,
    cover_art: Option<CoverArt>,
) -> (r: TrackMeta)
    ensures
        (meta_fields(r), opt_string_view(r.format), r.duration_ms) == meta_spec(
            ext_hint@,
            sample_rate,
            bits_per_sample,
            frames,
            tags@,
        ),
        r.sample_rate == sample_rate,
        r.bit_depth == bits_per_sample,
        r.cover_art == cover_art,
{
    let c = chars_of(ext_hint);
    let format = if c.len() == 0 {
        None
    } else {
        let u = upper_chars(c.as_slice());
        Some(string_from_chars(u.as_slice()))
    };
    let duration_ms = match (frames, sample_rate) {
        (Some(f), Some(rate)) => {
            if rate > 0 {
                let total = if f > u64::MAX / 1000 {
                    u64::MAX
                } else {
                    f * 1000
                };
                Some(total / (rate as u64))
            } else {
                None
            }
        },
        _ => None,
    };
    let mut album: Option<String> = None;
    let mut album_artist: Option<String> = None;
    let mut compilation = false;
    let mut artist: Option<String> = None;
    let mut title: Option<String> = None;
    let mut track_number: Option<u32> = None;
    let mut disc_number: Option<u32> = None;
    let mut year: Option<i32> = None;
    let mut i: usize = 0;
    while i < tags.len()
        invariant
            i <= tags@.len(),
            read_tags(tags@.take(i as int)) == (TagFields {
                album: opt_string_view(album),
                album_artist: opt_string_view(album_artist),
                compilation,
                artist: opt_string_view(artist),
                title: opt_string_view(title),
                track_number,
                disc_number,
                year,
            }),
        decreases tags@.len() - i,
    {
        let (key, value) = (tags[i].0, &tags[i].1);
        proof {
            let t = tags@.take(i + 1);
            assert(t.drop_last() =~= tags@.take(i as int));
            assert(t.last() == tags@[i as int]);
        }
        match key {
            StdTag::Album => {
                if album.is_none() {
                    album = Some(value.clone());
                }
            },
            StdTag::AlbumArtist => {
                if album_artist.is_none() {
                    album_artist = Some(value.clone());
                }
            },
            StdTag::Compilation => {
                if !compilation {
                    compilation = parse_bool_tag(value.as_str());
                }
            },
            StdTag::Artist => {
                if artist.is_none() {
                    artist = Some(value.clone());
                }
            },
            StdTag::TrackTitle => {
                if title.is_none() {
                    title = Some(value.clone());
                }
            },
            StdTag::TrackNumber => {
                if track_number.is_none() {
                    track_number = parse_u32_tag(value.as_str());
                }
            },
            StdTag::DiscNumber => {
                if disc_number.is_none() {
                    disc_number = parse_u32_tag(value.as_str());
                }
            },
            StdTag::Date => {
                if year.is_none() {
                    year = parse_i32_tag(value.as_str());
                }
            },
            StdTag::Other => {},
        }
        i = i + 1;
    }
    proof {
        assert(tags@.take(tags@.len() as int) =~= tags@);
    }
    if compilation {
        album_artist = Some(text("Various Artists"));
    } else if album_artist.is_none() {
        album_artist = copy_opt(&artist);
    }
    TrackMeta {
        duration_ms,
        sample_rate,
        bit_depth: bits_per_sample,
        album,
        artist,
        album_artist,
        compilation,
        title,
        track_number,
        disc_number,
        year,
        format,
        cover_art,
    }
}


/// An embedded image of a file, with whether it is the front cover.
#[derive(Clone, Debug)]
pub struct Visual {
    pub front_cover: bool,
    pub art: CoverArt,
}

/// Position of the first front cover.
pub open spec fn first_front(v: Seq<Visual>) -> Option<int>
    decreases v.len(),
{
    if v.len() == 0 {
        None
    } else if v[0].front_cover {
        Some(0)
    } else {
        match first_front(v.drop_first()) {
            Some(i) => Some(i + 1),
            None => None,
        }
    }
}

/// The cover kept for a file: the first front cover, else the first image;
/// none when there is none or it is over the size limit.
pub open spec fn cover_choice(v: Seq<Visual>) -> Option<CoverArt> {
    let pick = match first_front(v) {
        Some(i) => Some(v[i]),
        None => if v.len() > 0 {
            Some(v[0])
        } else {
            None
        },
    };
    match pick {
        Some(p) => if p.art.data@.len() > MAX_COVER_ART_BYTES {
            None
        } else {
            Some(p.art)
        },
        None => None,
    }
}

proof fn lemma_first_front(v: Seq<Visual>)
    ensures
        first_front(v) matches Some(i) ==> 0 <= i < v.len() && v[i].front_cover && forall|j: int|
            0 <= j < i ==> !(#[trigger] v[j]).front_cover,
        first_front(v) is None ==> forall|j: int| 0 <= j < v.len() ==> !(#[trigger] v[j]).front_cover,
    decreases v.len(),
{
    if v.len() > 0 && !v[0].front_cover {
        let t = v.drop_first();
        lemma_first_front(t);
        assert forall|j: int| 0 < j < v.len() implies #[trigger] v[j] == t[j - 1] by {}
    }
}

/// Chooses the cover image of a file.
pub fn select_cover_art(visuals: Vec<Visual>) -> (r: Option<CoverArt>)
    ensures
        r == cover_choice(visuals@),
{
    proof {
        lemma_first_front(visuals@);
    }
    let mut k: usize = 0;
    while k < visuals.len() && !visuals[k].front_cover
        invariant
            k <= visuals@.len(),
            forall|j: int| 0 <= j < k ==> !(#[trigger] visuals@[j]).front_cover,
        decreases visuals@.len() - k,
    {
        k = k + 1;
    }
    proof {
        if k < visuals@.len() {
            match first_front(visuals@) {
                Some(m) => {
                    if m < k {
                        assert(!visuals@[m].front_cover);
                    }
                    if m > k {
                        assert(!visuals@[k as int].front_cover);
                    }
                },
                None => {
                    assert(!visuals@[k as int].front_cover);
                },
            }
        } else {
            if let Some(m) = first_front(visuals@) {
                assert(!visuals@[m].front_cover);
            }
        }
    }
    let idx = if k < visuals.len() {
        k
    } else if visuals.len() > 0 {
        0
    } else {
        return None;
    };
    let mut visuals = visuals;
    let v = visuals.remove(idx);
    if v.art.data.len() > MAX_COVER_ART_BYTES {
        None
    } else {
        Some(v.art)
    }
}

/// The path of a track entry.
pub open spec fn track_path(e: LibraryEntry) -> Option<Seq<char>> {
    match e {
        LibraryEntry::Track { path, .. } => Some(path@),
        LibraryEntry::Dir { .. } => None,
    }
}

/// Position of the first track entry with this path.
pub open spec fn track_index(entries: Seq<LibraryEntry>, path: Seq<char>) -> Option<int>
    decreases entries.len(),
{
    if entries.len() == 0 {
        None
    } else if track_path(entries[0]) == Some(path) {
        Some(0)
    } else {
        match track_index(entries.drop_first(), path) {
            Some(i) => Some(i + 1),
            None => None,
        }
    }
}

proof fn lemma_track_index(s: Seq<LibraryEntry>, p: Seq<char>)
    ensures
        track_index(s, p) matches Some(i) ==> 0 <= i < s.len() && track_path(s[i]) == Some(p)
            && forall|j: int| 0 <= j < i ==> track_path(#[trigger] s[j]) != Some(p),
        track_index(s, p) is None ==> forall|j: int| 0 <= j < s.len() ==> track_path(#[trigger] s[j]) != Some(p),
    decreases s.len(),
{
    if s.len() > 0 && track_path(s[0]) != Some(p) {
        let t = s.drop_first();
        lemma_track_index(t, p);
        assert forall|j: int| 0 < j < s.len() implies #[trigger] s[j] == t[j - 1] by {}
    }
}

/// The track entry of a file in its folder's listing: the first track of
/// that path there, if the folder is listed.
pub open spec fn found_track(listings: Map<Seq<char>, Vec<LibraryEntry>>, path: Seq<char>) -> Option<LibraryEntry> {
    match parent_key_spec(path) {
        Some(d) => if listings.contains_key(d) {
            match track_index(listings[d]@, path) {
                Some(i) => Some(listings[d]@[i]),
                None => None,
            }
        } else {
            None
        },
        None => None,
    }
}

/// The entries without the tracks of this path.
pub open spec fn without_track(s: Seq<LibraryEntry>, p: Seq<char>) -> Seq<LibraryEntry>
    decreases s.len(),
{
    if s.len() == 0 {
        s
    } else if track_path(s.last()) == Some(p) {
        without_track(s.drop_last(), p)
    } else {
        without_track(s.drop_last(), p).push(s.last())
    }
}

/// The format shown for a track: its format tag, else its extension in
/// uppercase.
pub open spec fn shown_format(meta_format: Option<Seq<char>>, path: Seq<char>) -> Seq<char> {
    match meta_format {
        Some(f) => f,
        None => match extension_of(path) {
            Some(e) => upper_seq(e),
            None => Seq::empty(),
        },
    }
}

/// A track entry with its details replaced from new metadata.
pub open spec fn refreshed(e: LibraryEntry, meta: TrackMeta, path: Seq<char>) -> LibraryEntry
    recommends
        e is Track,
{
    match e {
        LibraryEntry::Track { path: p, file_name, .. } => LibraryEntry::Track {
            path: p,
            file_name,
            ext_hint: e->ext_hint,
            duration_ms: meta.duration_ms,
            sample_rate: meta.sample_rate,
            album: meta.album,
            artist: meta.artist,
            format: e->format,
        },
        LibraryEntry::Dir { .. } => e,
    }
}

/// A copy of a library entry.
pub fn copy_entry(e: &LibraryEntry) -> (r: LibraryEntry)
    ensures
        r == *e,
{
    match e {
        LibraryEntry::Dir { path, name } => LibraryEntry::Dir { path: path.clone(), name: name.clone() },
        LibraryEntry::Track {
            path,
            file_name,
            ext_hint,
            duration_ms,
            sample_rate,
            album,
            artist,
            format,
        } => LibraryEntry::Track {
            path: path.clone(),
            file_name: file_name.clone(),
            ext_hint: ext_hint.clone(),
            duration_ms: *duration_ms,
            sample_rate: *sample_rate,
            album: copy_opt(album),
            artist: copy_opt(artist),
            format: format.clone(),
        },
    }
}


/// Finds the first track entry of a file in a listing.
pub fn find_track_pos(entries: &Vec<LibraryEntry>, path: &str) -> (r: Option<usize>)
    ensures
        match r {
            Some(i) => track_index(entries@, path@) == Some(i as int) && i < entries@.len(),
            None => track_index(entries@, path@) is None,
        },
{
    let mut i: usize = 0;
    while i < entries.len()
        invariant
            i <= entries@.len(),
            forall|j: int| 0 <= j < i ==> track_path(#[trigger] entries@[j]) != Some(path@),
        decreases entries@.len() - i,
    {
        let hit = match &entries[i] {
            LibraryEntry::Track { path: p, .. } => crate::text::str_eq(p.as_str(), path),
            LibraryEntry::Dir { .. } => false,
        };
        if hit {
            proof {
                lemma_track_index(entries@, path@);
                match track_index(entries@, path@) {
                    Some(m) => {
                        if m < i {
                            assert(track_path(entries@[m]) != Some(path@));
                        }
                        if m > i {
                            assert(track_path(entries@[i as int]) != Some(path@));
                        }
                    },
                    None => {
                        assert(track_path(entries@[i as int]) != Some(path@));
                    },
                }
            }
            return Some(i);
        }
        i = i + 1;
    }
    proof {
        lemma_track_index(entries@, path@);
        if let Some(m) = track_index(entries@, path@) {
            assert(track_path(entries@[m]) != Some(path@));
        }
    }
    None
}

/// In-memory index of the media library: the listing of each directory.
pub struct LibraryIndex {
    root: String,
    dirs: StringTable<Vec<LibraryEntry>>,
}

impl LibraryIndex {
    /// The library root.
    pub closed spec fn root_view(&self) -> Seq<char> {
        self.root@
    }

    /// Listings by directory, each under the key of its path.
    pub closed spec fn listings(&self) -> Map<Seq<char>, Vec<LibraryEntry>> {
        self.dirs@
    }

    /// An index of a root with no listings yet.
    pub fn new(root: String) -> (r: Self)
        ensures
            r.root_view() == root@,
            r.listings() == Map::<Seq<char>, Vec<LibraryEntry>>::empty(),
    {
        LibraryIndex { root, dirs: StringTable::new() }
    }

    /// Records the listing of a directory, under the key of its path.
    pub fn set_listing(&mut self, dir: String, entries: Vec<LibraryEntry>)
        ensures
            final(self).root_view() == old(self).root_view(),
            final(self).listings() == old(self).listings().insert(path_key_spec(dir@), entries),
    {
        self.dirs.insert(path_key(dir.as_str()), entries);
    }

    /// The library root.
    pub fn root(&self) -> (r: &str)
        ensures
            r@ == self.root_view(),
    {
        self.root.as_str()
    }

    /// The listing of a directory, looked up by the key of its path: a
    /// trailing or doubled separator or a `.` component finds the same
    /// directory.
    pub fn list_dir(&self, dir: &str) -> (r: Option<&Vec<LibraryEntry>>)
        ensures
            match r {
                Some(v) => self.listings().contains_key(path_key_spec(dir@)) && self.listings()[path_key_spec(
                    dir@,
                )] == *v,
                None => !self.listings().contains_key(path_key_spec(dir@)),
            },
    {
        let key = path_key(dir);
        self.dirs.get(key.as_str())
    }

    /// The track entry of a file: the first track with its path in the
    /// listing of its folder.
    pub fn find_track_by_path(&self, path: &str) -> (r: Option<LibraryEntry>)
        ensures
            r == found_track(self.listings(), path@),
    {
        let dir = match parent_key(path) {
            Some(d) => d,
            None => {
                return None;
            },
        };
        let entries = match self.dirs.get(dir.as_str()) {
            Some(e) => e,
            None => {
                return None;
            },
        };
        proof {
            lemma_track_index(entries@, path@);
        }
        let ghost d = dir@;
        let mut i: usize = 0;
        while i < entries.len()
            invariant
                i <= entries@.len(),
                parent_key_spec(path@) == Some(d),
                self.listings().contains_key(d),
                self.listings()[d] == *entries,
                forall|j: int| 0 <= j < i ==> track_path(#[trigger] entries@[j]) != Some(path@),
            decreases entries@.len() - i,
        {
            let found = match &entries[i] {
                LibraryEntry::Track { path: p, .. } => crate::text::str_eq(p.as_str(), path),
                LibraryEntry::Dir { .. } => false,
            };
            if found {
                proof {
                    lemma_track_index(entries@, path@);
                    match track_index(entries@, path@) {
                        Some(m) => {
                            if m < i {
                                assert(track_path(entries@[m]) != Some(path@));
                            }
                            if m > i {
                                assert(track_path(entries@[i as int]) != Some(path@));
                            }
                        },
                        None => {
                            assert(track_path(entries@[i as int]) != Some(path@));
                        },
                    }
                }
                return Some(copy_entry(&entries[i]));
            }
            i = i + 1;
        }
        proof {
            if let Some(m) = track_index(entries@, path@) {
                assert(track_path(entries@[m]) != Some(path@));
            }
        }
        None
    }

    /// Removes the track entries of a file from its folder's listing; true
    /// when some were removed, which is when the file had a track listed.
    /// Afterwards the file is not found.
    pub fn remove_track(&mut self, path: &str) -> (r: bool)
        ensures
            r == found_track(old(self).listings(), path@) is Some,
            found_track(final(self).listings(), path@) is None,
            final(self).root_view() == old(self).root_view(),
            match parent_key_spec(path@) {
                Some(d) => if old(self).listings().contains_key(d) {
                    final(self).listings() == old(self).listings().insert(
                        d,
                        final(self).listings()[d],
                    ) && final(self).listings()[d]@ == without_track(old(self).listings()[d]@, path@)
                        && r == (without_track(old(self).listings()[d]@, path@).len()
                        != old(self).listings()[d]@.len())
                } else {
                    !r && final(self).listings() == old(self).listings()
                },
                None => !r && final(self).listings() == old(self).listings(),
            },
    {
        let c = chars_of(path);
        let dir = match parent_key(path) {
            Some(d) => d,
            None => {
                return false;
            },
        };
        let entries = match self.dirs.remove(dir.as_str()) {
            Some(e) => e,
            None => {
                proof {
                    assert(self.dirs@ =~= old(self).dirs@);
                }
                return false;
            },
        };
        let before = entries.len();
        let mut kept: Vec<LibraryEntry> = Vec::new();
        let mut i: usize = 0;
        while i < entries.len()
            invariant
                i <= entries@.len(),
                kept@ == without_track(entries@.take(i as int), path@),
            decreases entries@.len() - i,
        {
            let drop = match &entries[i] {
                LibraryEntry::Track { path: p, .. } => crate::text::str_eq(p.as_str(), path),
                LibraryEntry::Dir { .. } => false,
            };
            proof {
                let t = entries@.take(i + 1);
                assert(t.drop_last() =~= entries@.take(i as int));
                assert(t.last() == entries@[i as int]);
            }
            if !drop {
                kept.push(copy_entry(&entries[i]));
            }
            i = i + 1;
        }
        proof {
            assert(entries@.take(entries@.len() as int) =~= entries@);
        }
        let changed = before != kept.len();
        let ghost kv = kept;
        self.dirs.insert(dir, kept);
        proof {
            assert(self.dirs@ =~= old(self).dirs@.insert(path_parent(path@), kv));
            lemma_without_track_len(entries@, path@);
            law_removed_track_is_not_found(entries@, path@);
        }
        changed
    }

    /// Refreshes the track entry of a file from new metadata: duration,
    /// sample rate, album and artist, and as format and extension hint its
    /// format tag (else its extension in uppercase). False when the file
    /// has no entry.
    pub fn update_track_meta(&mut self, path: &str, meta: &TrackMeta) -> (r: bool)
        ensures
            final(self).root_view() == old(self).root_view(),
            !r ==> final(self).listings() == old(self).listings(),
            r <==> (parent_key_spec(path@) matches Some(d) && old(self).listings().contains_key(d)
                && track_index(old(self).listings()[d]@, path@) is Some),
            r ==> ({
                let d = path_parent(path@);
                let old_entries = old(self).listings()[d]@;
                let i = track_index(old_entries, path@)->0;
                let new_entries = final(self).listings()[d]@;
                &&& final(self).listings().dom() == old(self).listings().dom()
                &&& forall|k: Seq<char>| k != d && #[trigger] old(self).listings().contains_key(k)
                    ==> final(self).listings()[k] == old(self).listings()[k]
                &&& new_entries.len() == old_entries.len()
                &&& forall|j: int| 0 <= j < old_entries.len() && j != i ==> #[trigger] new_entries[j] == old_entries[j]
                &&& new_entries[i] matches LibraryEntry::Track {
                    path: p,
                    file_name,
                    ext_hint,
                    duration_ms,
                    sample_rate,
                    album,
                    artist,
                    format,
                }
                &&& p == old_entries[i]->Track_path && file_name == old_entries[i]->Track_file_name
                &&& duration_ms == meta.duration_ms && sample_rate == meta.sample_rate
                &&& album == meta.album && artist == meta.artist
                &&& format@ == shown_format(opt_string_view(meta.format), path@)
                &&& ext_hint@ == shown_format(opt_string_view(meta.format), path@)
            }),
    {
        let c = chars_of(path);
        let dir = match parent_key(path) {
            Some(d) => d,
            None => {
                return false;
            },
        };
        let pos = match self.dirs.get(dir.as_str()) {
            None => {
                return false;
            },
            Some(entries) => find_track_pos(entries, path),
        };
        let i = match pos {
            None => {
                return false;
            },
            Some(i) => i,
        };
        let mut entries = match self.dirs.remove(dir.as_str()) {
            Some(e) => e,
            None => {
                return false;
            },
        };
        let ghost old_entries = entries@;
        let format = match &meta.format {
            Some(f) => f.clone(),
            None => {
                match extension(c.as_slice()) {
                    Some(e) => {
                        let u = upper_chars(e.as_slice());
                        string_from_chars(u.as_slice())
                    },
                    None => String::new(),
                }
            },
        };
        let updated = match &entries[i] {
            LibraryEntry::Track { path: p, file_name, .. } => LibraryEntry::Track {
                path: p.clone(),
                file_name: file_name.clone(),
                ext_hint: format.clone(),
                duration_ms: meta.duration_ms,
                sample_rate: meta.sample_rate,
                album: copy_opt(&meta.album),
                artist: copy_opt(&meta.artist),
                format,
            },
            LibraryEntry::Dir { .. } => {
                proof {
                    lemma_track_index(old_entries, path@);
                }
                return false;
            },
        };
        entries.set(i, updated);
        let ghost new_entries = entries;
        self.dirs.insert(dir, entries);
        proof {
            lemma_track_index(old_entries, path@);
            assert(self.dirs@ == old(self).dirs@.insert(path_parent(path@), new_entries));
            assert(self.dirs@.dom() =~= old(self).dirs@.dom());
        }
        true
    }
}

/// The key of a path's parent directory, as a spec value (empty when it
/// has none).
pub open spec fn path_parent(p: Seq<char>) -> Seq<char> {
    match parent_key_spec(p) {
        Some(d) => d,
        None => Seq::empty(),
    }
}


/// The name an entry is listed by: a directory's name, a track's file name.
pub open spec fn entry_name(e: LibraryEntry) -> Seq<char> {
    match e {
        LibraryEntry::Dir { name, .. } => name@,
        LibraryEntry::Track { file_name, .. } => file_name@,
    }
}

/// Entries keyed by their lowercased names.
pub open spec fn by_lower_name(s: Seq<LibraryEntry>) -> Seq<(Seq<char>, LibraryEntry)> {
    s.map_values(|e: LibraryEntry| (unicode_lowercase(entry_name(e)), e))
}

/// The items of keyed pairs, in order.
pub open spec fn entries_of(s: Seq<(Seq<char>, LibraryEntry)>) -> Seq<LibraryEntry> {
    s.map_values(|p: (Seq<char>, LibraryEntry)| p.1)
}

/// The listing of a directory: its subdirectories, then its tracks, each
/// ordered by lowercased name (ties keep their order).
pub open spec fn listing_spec(dirs: Seq<LibraryEntry>, tracks: Seq<LibraryEntry>) -> Seq<LibraryEntry> {
    entries_of(sorted_by_text(by_lower_name(dirs))) + entries_of(sorted_by_text(by_lower_name(tracks)))
}

fn name_key(e: &LibraryEntry) -> (r: Vec<char>)
    ensures
        r@ == unicode_lowercase(entry_name(*e)),
{
    let name = match e {
        LibraryEntry::Dir { name, .. } => name.as_str(),
        LibraryEntry::Track { file_name, .. } => file_name.as_str(),
    };
    let l = to_lowercase(name);
    chars_of(l.as_str())
}

fn ordered(items: Vec<LibraryEntry>) -> (r: Vec<LibraryEntry>)
    ensures
        r@ == entries_of(sorted_by_text(by_lower_name(items@))),
{
    let ghost orig = items@;
    let mut input = items;
    let mut keyed: Vec<(Vec<char>, LibraryEntry)> = Vec::new();
    let n = input.len();
    let mut i: usize = 0;
    while input.len() > 0
        invariant
            n == orig.len(),
            i + input@.len() == n,
            input@ == orig.subrange(i as int, n as int),
            keyed_view(keyed@) == by_lower_name(orig.take(i as int)),
        decreases input@.len(),
    {
        let e = input.remove(0);
        let k = name_key(&e);
        let ghost before = keyed@;
        let ghost kv = (k@, e);
        keyed.push((k, e));
        proof {
            assert(keyed_view(keyed@) =~= keyed_view(before).push(kv));
            assert(keyed_view(keyed@) =~= by_lower_name(orig.take(i + 1)));
            assert(input@ =~= orig.subrange(i + 1, n as int));
        }
        i = i + 1;
    }
    proof {
        assert(orig.take(n as int) =~= orig);
    }
    let sorted = sort_by_text_key(keyed);
    let ghost sv = keyed_view(sorted@);
    let mut out: Vec<LibraryEntry> = Vec::new();
    let mut rest = sorted;
    let m = rest.len();
    let mut j: usize = 0;
    while rest.len() > 0
        invariant
            m == sv.len(),
            j + rest@.len() == m,
            keyed_view(rest@) == sv.subrange(j as int, m as int),
            out@ == entries_of(sv.take(j as int)),
        decreases rest@.len(),
    {
        let ghost rb = rest@;
        let (_, e) = rest.remove(0);
        proof {
            assert(keyed_view(rb)[0].1 == e);
            assert(keyed_view(rest@) =~= keyed_view(rb).drop_first());
        }
        out.push(e);
        proof {
            assert(out@ =~= entries_of(sv.take(j + 1)));
        }
        j = j + 1;
    }
    proof {
        assert(sv.take(m as int) =~= sv);
    }
    out
}

/// What the scan of a directory does with one of its entries.
pub enum ScanItem {
    /// A subdirectory, listed under its name.
    Dir { path: String, name: String },
    /// An audio file of a supported type, to probe and list.
    Track { file_name: String, ext: String },
    /// Anything else, left out.
    Skip,
}

/// The name a scanned entry is listed under: its file name, else
/// `<unknown>`.
pub open spec fn scan_name(path: Seq<char>) -> Seq<char> {
    match file_name_of(path) {
        Some(n) => n,
        None => "<unknown>"@,
    }
}

/// The lowercase extension of a scanned file, empty when it has none.
pub open spec fn scan_ext(path: Seq<char>) -> Seq<char> {
    match extension_of(path) {
        Some(e) => lower_seq(e),
        None => Seq::empty(),
    }
}

/// Decides what the scan does with one entry of a directory, given where
/// it is and whether it is a directory or a regular file.
pub fn scan_item(path: &str, is_dir: bool, is_file: bool) -> (r: ScanItem)
    ensures
        is_dir ==> (r matches ScanItem::Dir { path: p, name } && p@ == path@ && name@ == scan_name(path@)),
        !is_dir && is_file && supported_extension(scan_ext(path@)) ==> (r matches ScanItem::Track {
            file_name,
            ext,
        } && file_name@ == scan_name(path@) && ext@ == scan_ext(path@)),
        !is_dir && !(is_file && supported_extension(scan_ext(path@))) ==> r is Skip,
{
    if is_dir {
        let name = match file_name(path) {
            Some(n) => n,
            None => String::from_str("<unknown>"),
        };
        return ScanItem::Dir { path: string_from_chars(chars_of(path).as_slice()), name };
    }
    if !is_file {
        return ScanItem::Skip;
    }
    let c = chars_of(path);
    let ext = match extension(c.as_slice()) {
        Some(e) => string_from_chars(lower_chars(e.as_slice()).as_slice()),
        None => String::new(),
    };
    if !is_supported_extension(ext.as_str()) {
        return ScanItem::Skip;
    }
    let file_name = match file_name(path) {
        Some(n) => n,
        None => String::from_str("<unknown>"),
    };
    ScanItem::Track { file_name, ext }
}

/// Orders the entries of a directory for its listing.
pub fn directory_listing(dirs: Vec<LibraryEntry>, tracks: Vec<LibraryEntry>) -> (r: Vec<LibraryEntry>)
    ensures
        r@ == listing_spec(dirs@, tracks@),
{
    let mut a = ordered(dirs);
    let mut b = ordered(tracks);
    a.append(&mut b);
    a
}

/// The listing entry of a scanned track (format `<unknown>` when its
/// metadata has none).
pub fn track_entry(path: String, file_name: String, ext_hint: String, meta: TrackMeta) -> (r: LibraryEntry)
    ensures
        r matches LibraryEntry::Track { path: p, file_name: f, ext_hint: x, duration_ms, sample_rate, album, artist, format }
            && p == path && f == file_name && x == ext_hint && duration_ms == meta.duration_ms
            && sample_rate == meta.sample_rate && album == meta.album && artist == meta.artist
            && format@ == match meta.format {
            Some(fm) => fm@,
            None => "<unknown>"@,
        },
{
    let format = match meta.format {
        Some(f) => f,
        None => text("<unknown>"),
    };
    LibraryEntry::Track {
        path,
        file_name,
        ext_hint,
        duration_ms: meta.duration_ms,
        sample_rate: meta.sample_rate,
        album: meta.album,
        artist: meta.artist,
        format,
    }
}

proof fn lemma_without_track_excludes(s: Seq<LibraryEntry>, p: Seq<char>)
    ensures
        forall|j: int| 0 <= j < without_track(s, p).len() ==> track_path(#[trigger] without_track(s, p)[j]) != Some(p),
    decreases s.len(),
{
    if s.len() > 0 {
        lemma_without_track_excludes(s.drop_last(), p);
        let w = without_track(s.drop_last(), p);
        if track_path(s.last()) != Some(p) {
            assert forall|j: int| 0 <= j < w.push(s.last()).len() implies track_path(#[trigger] w.push(s.last())[j]) != Some(p) by {
                if j < w.len() {
                    assert(w.push(s.last())[j] == w[j]);
                }
            }
        }
    }
}

proof fn lemma_without_track_len(s: Seq<LibraryEntry>, p: Seq<char>)
    ensures
        without_track(s, p).len() <= s.len(),
        (without_track(s, p).len() != s.len()) == (track_index(s, p) is Some),
    decreases s.len(),
{
    lemma_track_index(s, p);
    if s.len() > 0 {
        let t = s.drop_last();
        lemma_without_track_len(t, p);
        lemma_track_index(t, p);
        if track_path(s.last()) == Some(p) {
            if track_index(s, p) is None {
                assert(track_path(s[s.len() - 1]) != Some(p));
            }
        } else {
            assert forall|j: int| 0 <= j < t.len() implies #[trigger] t[j] == s[j] by {}
            if let Some(i) = track_index(s, p) {
                assert(i < t.len());
                assert(track_path(t[i]) == Some(p));
            }
            if let Some(i) = track_index(t, p) {
                assert(track_path(s[i]) == Some(p));
            }
        }
    }
}

/// A removed track is not found again: once a file's track entries are
/// taken out of its folder's listing, looking the file up in that listing
/// finds nothing.
pub proof fn law_removed_track_is_not_found(entries: Seq<LibraryEntry>, path: Seq<char>)
    ensures
        track_index(without_track(entries, path), path) is None,
{
    let w = without_track(entries, path);
    lemma_without_track_excludes(entries, path);
    lemma_track_index(w, path);
    if let Some(i) = track_index(w, path) {
        assert(track_path(w[i]) != Some(path));
    }
}

/// Whether a tag is of this kind and its value reads as a number.
pub open spec fn numeric_tag(t: (StdTag, String), key: StdTag) -> bool {
    t.0 == key && u32_tag(t.1@) is Some
}

proof fn lemma_first_numeric_tag(tags: Seq<(StdTag, String)>)
    ensures
        forall|i: int|
            0 <= i < tags.len() && #[trigger] numeric_tag(tags[i], StdTag::TrackNumber) && (forall|j: int|
                0 <= j < i ==> !numeric_tag(tags[j], StdTag::TrackNumber)) ==> read_tags(tags).track_number
                == u32_tag(tags[i].1@),
        (forall|j: int| 0 <= j < tags.len() ==> !numeric_tag(tags[j], StdTag::TrackNumber))
            ==> read_tags(tags).track_number is None,
        forall|i: int|
            0 <= i < tags.len() && #[trigger] numeric_tag(tags[i], StdTag::DiscNumber) && (forall|j: int|
                0 <= j < i ==> !numeric_tag(tags[j], StdTag::DiscNumber)) ==> read_tags(tags).disc_number
                == u32_tag(tags[i].1@),
        (forall|j: int| 0 <= j < tags.len() ==> !numeric_tag(tags[j], StdTag::DiscNumber))
            ==> read_tags(tags).disc_number is None,
    decreases tags.len(),
{
    if tags.len() > 0 {
        let d = tags.drop_last();
        lemma_first_numeric_tag(d);
        assert forall|j: int| 0 <= j < d.len() implies #[trigger] d[j] == tags[j] by {}
        let n = tags.len() - 1;
        assert forall|i: int|
            0 <= i < tags.len() && #[trigger] numeric_tag(tags[i], StdTag::TrackNumber) && (forall|j: int|
                0 <= j < i ==> !numeric_tag(tags[j], StdTag::TrackNumber)) implies read_tags(tags).track_number
                == u32_tag(tags[i].1@) by {
            if i < n {
                assert(d[i] == tags[i]);
                assert(numeric_tag(d[i], StdTag::TrackNumber));
                assert forall|j: int| 0 <= j < i implies !numeric_tag(d[j], StdTag::TrackNumber) by {
                    assert(d[j] == tags[j]);
                }
            } else {
                assert forall|j: int| 0 <= j < d.len() implies !numeric_tag(d[j], StdTag::TrackNumber) by {
                    assert(d[j] == tags[j]);
                }
            }
        }
        assert forall|i: int|
            0 <= i < tags.len() && #[trigger] numeric_tag(tags[i], StdTag::DiscNumber) && (forall|j: int|
                0 <= j < i ==> !numeric_tag(tags[j], StdTag::DiscNumber)) implies read_tags(tags).disc_number
                == u32_tag(tags[i].1@) by {
            if i < n {
                assert(d[i] == tags[i]);
                assert(numeric_tag(d[i], StdTag::DiscNumber));
                assert forall|j: int| 0 <= j < i implies !numeric_tag(d[j], StdTag::DiscNumber) by {
                    assert(d[j] == tags[j]);
                }
            } else {
                assert forall|j: int| 0 <= j < d.len() implies !numeric_tag(d[j], StdTag::DiscNumber) by {
                    assert(d[j] == tags[j]);
                }
            }
        }
        if forall|j: int| 0 <= j < tags.len() ==> !numeric_tag(tags[j], StdTag::TrackNumber) {
            assert forall|j: int| 0 <= j < d.len() implies !numeric_tag(d[j], StdTag::TrackNumber) by {
                assert(d[j] == tags[j]);
            }
            assert(!numeric_tag(tags[n], StdTag::TrackNumber));
        }
        if forall|j: int| 0 <= j < tags.len() ==> !numeric_tag(tags[j], StdTag::DiscNumber) {
            assert forall|j: int| 0 <= j < d.len() implies !numeric_tag(d[j], StdTag::DiscNumber) by {
                assert(d[j] == tags[j]);
            }
            assert(!numeric_tag(tags[n], StdTag::DiscNumber));
        }
    }
}

/// The track number of a file's metadata is the first track-number tag
/// whose value reads as a number, and none without one; the disc number
/// likewise comes from the disc-number tags alone.
pub proof fn law_track_and_disc_numbers_come_from_their_tags(
    ext_hint: Seq<char>,
    sample_rate: Option<u32>,
    bits_per_sample: Option<u32>,
    frames: Option<u64>,
    tags: Seq<(StdTag, String)>,
)
    ensures
        forall|i: int|
            0 <= i < tags.len() && #[trigger] numeric_tag(tags[i], StdTag::TrackNumber) && (forall|j: int|
                0 <= j < i ==> !numeric_tag(tags[j], StdTag::TrackNumber)) ==> meta_spec(
                ext_hint,
                sample_rate,
                bits_per_sample,
                frames,
                tags,
            ).0.track_number == u32_tag(tags[i].1@),
        (forall|j: int| 0 <= j < tags.len() ==> !numeric_tag(tags[j], StdTag::TrackNumber)) ==> meta_spec(
            ext_hint,
            sample_rate,
            bits_per_sample,
            frames,
            tags,
        ).0.track_number is None,
        forall|i: int|
            0 <= i < tags.len() && #[trigger] numeric_tag(tags[i], StdTag::DiscNumber) && (forall|j: int|
                0 <= j < i ==> !numeric_tag(tags[j], StdTag::DiscNumber)) ==> meta_spec(
                ext_hint,
                sample_rate,
                bits_per_sample,
                frames,
                tags,
            ).0.disc_number == u32_tag(tags[i].1@),
        (forall|j: int| 0 <= j < tags.len() ==> !numeric_tag(tags[j], StdTag::DiscNumber)) ==> meta_spec(
            ext_hint,
            sample_rate,
            bits_per_sample,
            frames,
            tags,
        ).0.disc_number is None,
{
    lemma_first_numeric_tag(tags);
}

/// The cover kept for a file is the first embedded front cover when there
/// is one, else the first image; either way none when that image is over
/// the size limit.
pub proof fn law_front_cover_is_preferred(v: Seq<Visual>, i: int)
    requires
        0 <= i < v.len(),
        v[i].front_cover,
        forall|j: int| 0 <= j < i ==> !(#[trigger] v[j]).front_cover,
    ensures
        cover_choice(v) == (if v[i].art.data@.len() > 5000000 {
            None
        } else {
            Some(v[i].art)
        }),
{
    lemma_first_front(v);
    match first_front(v) {
        Some(m) => {
            if m < i {
                assert(!v[m].front_cover);
            }
            if m > i {
                assert(!v[i].front_cover);
            }
        },
        None => {
            assert(!v[i].front_cover);
        },
    }
}

/// Without a front cover the first embedded image is kept, when it is
/// within the size limit.
pub proof fn law_first_image_without_front_cover(v: Seq<Visual>)
    requires
        forall|j: int| 0 <= j < v.len() ==> !(#[trigger] v[j]).front_cover,
    ensures
        v.len() == 0 ==> cover_choice(v) is None,
        v.len() > 0 ==> cover_choice(v) == (if v[0].art.data@.len() > 5000000 {
            None
        } else {
            Some(v[0].art)
        }),
{
    lemma_first_front(v);
    if let Some(m) = first_front(v) {
        assert(!v[m].front_cover);
    }
}


proof fn lemma_ordered_group(s: Seq<LibraryEntry>)
    ensures
        entries_of(sorted_by_text(by_lower_name(s))).len() == s.len(),
        forall|i: int, j: int|
            0 <= i < j < s.len() ==> code_point_le(
                unicode_lowercase(entry_name(#[trigger] entries_of(sorted_by_text(by_lower_name(s)))[i])),
                unicode_lowercase(entry_name(#[trigger] entries_of(sorted_by_text(by_lower_name(s)))[j])),
            ),
        forall|i: int| 0 <= i < s.len() ==> s.contains(#[trigger] entries_of(sorted_by_text(by_lower_name(s)))[i]),
{
    let k = by_lower_name(s);
    let sd = sorted_by_text(k);
    let e = entries_of(sd);
    lemma_sorted_by_text(k);
    law_text_keys_ascend(k);
    assert forall|i: int| 0 <= i < s.len() implies #[trigger] sd[i].0 == unicode_lowercase(entry_name(e[i]))
        && s.contains(e[i]) by {
        assert(k.contains(sd[i]));
        let m = choose|m: int| 0 <= m < k.len() && k[m] == sd[i];
        assert(k[m] == (unicode_lowercase(entry_name(s[m])), s[m]));
        assert(e[i] == sd[i].1);
    }
    assert forall|i: int, j: int| 0 <= i < j < s.len() implies code_point_le(
        unicode_lowercase(entry_name(#[trigger] e[i])),
        unicode_lowercase(entry_name(#[trigger] e[j])),
    ) by {
        assert(sd[i].0 == unicode_lowercase(entry_name(e[i])));
        assert(sd[j].0 == unicode_lowercase(entry_name(e[j])));
        assert(code_point_le(sd[i].0, sd[j].0));
    }
    assert forall|i: int| 0 <= i < s.len() implies s.contains(#[trigger] e[i]) by {
        assert(sd[i].0 == unicode_lowercase(entry_name(e[i])));
    }
}

/// A directory listing holds the subdirectories, then the tracks, each
/// taken from what was given and each group ascending by lowercased name in
/// code-point order.
pub proof fn law_listing_groups_ascend_by_lowercased_name(dirs: Seq<LibraryEntry>, tracks: Seq<LibraryEntry>)
    ensures
        listing_spec(dirs, tracks).len() == dirs.len() + tracks.len(),
        forall|i: int| 0 <= i < dirs.len() ==> dirs.contains(#[trigger] listing_spec(dirs, tracks)[i]),
        forall|i: int|
            dirs.len() <= i < dirs.len() + tracks.len() ==> tracks.contains(#[trigger] listing_spec(dirs, tracks)[i]),
        forall|i: int, j: int|
            0 <= i < j < dirs.len() ==> code_point_le(
                unicode_lowercase(entry_name(#[trigger] listing_spec(dirs, tracks)[i])),
                unicode_lowercase(entry_name(#[trigger] listing_spec(dirs, tracks)[j])),
            ),
        forall|i: int, j: int|
            dirs.len() <= i < j < dirs.len() + tracks.len() ==> code_point_le(
                unicode_lowercase(entry_name(#[trigger] listing_spec(dirs, tracks)[i])),
                unicode_lowercase(entry_name(#[trigger] listing_spec(dirs, tracks)[j])),
            ),
{
    lemma_ordered_group(dirs);
    lemma_ordered_group(tracks);
    let a = entries_of(sorted_by_text(by_lower_name(dirs)));
    let b = entries_of(sorted_by_text(by_lower_name(tracks)));
    let r = listing_spec(dirs, tracks);
    assert(r == a + b);
    assert forall|i: int| dirs.len() <= i < dirs.len() + tracks.len() implies tracks.contains(#[trigger] r[i]) by {
        assert(r[i] == b[i - dirs.len()]);
    }
    assert forall|i: int, j: int| dirs.len() <= i < j < dirs.len() + tracks.len() implies code_point_le(
        unicode_lowercase(entry_name(#[trigger] r[i])),
        unicode_lowercase(entry_name(#[trigger] r[j])),
    ) by {
        assert(r[i] == b[i - dirs.len()] && r[j] == b[j - dirs.len()]);
    }
}

} // verus!
