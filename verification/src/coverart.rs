//! Album cover art: where a track's cover comes from, the names of cached
//! cover files, and the requests made to the Cover Art Archive.

use vstd::prelude::*;
use crate::assets::{hash_bytes, hex_digits, default_hash};
use crate::library::CoverArt;
use crate::media::{cover_extension_for_mime, cover_extension_for_mime_type};
use crate::names::{slug, slugify};
use crate::store::TrackRecord;
use crate::strings::{string_from_chars};
use crate::tags::opt_string_view;
use crate::text::{decimal, push_decimal_i64, push_str_chars, str_starts_with};

verus! {

/// Folder of the cover cache, under the media root.
pub const COVER_CACHE_DIR: &'static str = ".audio-hub/art";

/// Cover Art Archive release endpoint.
pub const CAA_BASE_URL: &'static str = "https://coverartarchive.org/release";

/// Least delay between Cover Art Archive requests, in milliseconds.
pub const CAA_RATE_LIMIT_MS: u64 = 1000;

/// Number of file names looked for in a track's folder.
pub const COVER_FILE_COUNT: usize = 10;

/// File names of a folder cover, in the order they are looked for.
pub open spec fn cover_file_name_spec(i: int) -> Seq<char> {
    if i == 0 {
        "cover.jpg"@
    } else if i == 1 {
        "cover.jpeg"@
    } else if i == 2 {
        "cover.png"@
    } else if i == 3 {
        "folder.jpg"@
    } else if i == 4 {
        "folder.jpeg"@
    } else if i == 5 {
        "folder.png"@
    } else if i == 6 {
        "front.jpg"@
    } else if i == 7 {
        "front.jpeg"@
    } else if i == 8 {
        "front.png"@
    } else {
        "album.jpg"@
    }
}

/// MIME type of the folder cover file names.
pub open spec fn cover_file_mime_spec(i: int) -> Seq<char> {
    if i == 2 || i == 5 || i == 8 {
        "image/png"@
    } else {
        "image/jpeg"@
    }
}

/// The `i`th folder cover file name with its MIME type.
pub fn cover_file_name(i: usize) -> (r: (&'static str, &'static str))
    requires
        i < COVER_FILE_COUNT,
    ensures
        r.0@ == cover_file_name_spec(i as int),
        r.1@ == cover_file_mime_spec(i as int),
{
    if i == 0 {
        ("cover.jpg", "image/jpeg")
    } else if i == 1 {
        ("cover.jpeg", "image/jpeg")
    } else if i == 2 {
        ("cover.png", "image/png")
    } else if i == 3 {
        ("folder.jpg", "image/jpeg")
    } else if i == 4 {
        ("folder.jpeg", "image/jpeg")
    } else if i == 5 {
        ("folder.png", "image/png")
    } else if i == 6 {
        ("front.jpg", "image/jpeg")
    } else if i == 7 {
        ("front.jpeg", "image/jpeg")
    } else if i == 8 {
        ("front.png", "image/png")
    } else {
        ("album.jpg", "image/jpeg")
    }
}

/// Index of the first `true`.
pub open spec fn first_true(v: Seq<bool>) -> Option<int>
    decreases v.len(),
{
    if v.len() == 0 {
        None
    } else if v[0] {
        Some(0)
    } else {
        match first_true(v.drop_first()) {
            Some(i) => Some(i + 1),
            None => None,
        }
    }
}

proof fn lemma_first_true(v: Seq<bool>)
    ensures
        first_true(v) matches Some(i) ==> (0 <= i < v.len() && v[i] && forall|j: int| 0 <= j < i ==> !#[trigger] v[j]),
        first_true(v) is None ==> forall|j: int| 0 <= j < v.len() ==> !#[trigger] v[j],
    decreases v.len(),
{
    if v.len() > 0 && !v[0] {
        let t = v.drop_first();
        lemma_first_true(t);
        assert forall|j: int| 0 < j < v.len() implies #[trigger] v[j] == t[j - 1] by {}
    }
}

/// The folder cover file to read: the first of the names that is a file
/// in the track's folder. `is_file` tells, name by name, whether it is.
pub fn folder_cover_file(is_file: &Vec<bool>) -> (r: Option<(&'static str, &'static str)>)
    requires
        is_file@.len() == COVER_FILE_COUNT,
    ensures
        match first_true(is_file@) {
            Some(i) => r matches Some((n, m)) && n@ == cover_file_name_spec(i) && m@ == cover_file_mime_spec(i),
            None => r is None,
        },
{
    proof {
        lemma_first_true(is_file@);
    }
    let mut i: usize = 0;
    while i < COVER_FILE_COUNT
        invariant
            is_file@.len() == COVER_FILE_COUNT,
            i <= COVER_FILE_COUNT,
            forall|j: int| 0 <= j < i ==> !#[trigger] is_file@[j],
            first_true(is_file@) matches Some(k) ==> (0 <= k < is_file@.len() && is_file@[k] && forall|j: int|
                0 <= j < k ==> !#[trigger] is_file@[j]),
            first_true(is_file@) is None ==> forall|j: int| 0 <= j < is_file@.len() ==> !#[trigger] is_file@[j],
        decreases COVER_FILE_COUNT - i,
    {
        if is_file[i] {
            proof {
                if let Some(k) = first_true(is_file@) {
                    if k < i {
                        assert(!is_file@[k]);
                    }
                    if k > i {
                        assert(!is_file@[i as int]);
                    }
                }
            }
            return Some(cover_file_name(i));
        }
        i = i + 1;
    }
    proof {
        if let Some(k) = first_true(is_file@) {
            assert(!is_file@[k]);
        }
    }
    None
}

/// Where a track's cover is taken from, in order of preference.
#[derive(Debug, Clone, Copy, PartialEq, Eq, Structural)]
pub enum CoverArtStrategy {
    EmbeddedThenFolder,
    FolderThenEmbedded,
    EmbeddedOnly,
    FolderOnly,
}

/// The strategy used by default.
pub fn default_strategy() -> (r: CoverArtStrategy)
    ensures
        r == CoverArtStrategy::EmbeddedThenFolder,
{
    CoverArtStrategy::EmbeddedThenFolder
}

/// Whether the folder cover is needed, given whether the track embeds one.
pub fn needs_folder_cover(strategy: CoverArtStrategy, has_embedded: bool) -> (r: bool)
    ensures
        r == match strategy {
            CoverArtStrategy::EmbeddedThenFolder => !has_embedded,
            CoverArtStrategy::FolderThenEmbedded => true,
            CoverArtStrategy::EmbeddedOnly => false,
            CoverArtStrategy::FolderOnly => true,
        },
{
    match strategy {
        CoverArtStrategy::EmbeddedThenFolder => !has_embedded,
        CoverArtStrategy::FolderThenEmbedded => true,
        CoverArtStrategy::EmbeddedOnly => false,
        CoverArtStrategy::FolderOnly => true,
    }
}

/// The cover chosen by a strategy from the embedded one and the folder one.
pub open spec fn choose_cover_spec(strategy: CoverArtStrategy, embedded: Option<CoverArt>, folder: Option<CoverArt>) -> Option<CoverArt> {
    match strategy {
        CoverArtStrategy::EmbeddedThenFolder => if embedded is Some {
            embedded
        } else {
            folder
        },
        CoverArtStrategy::FolderThenEmbedded => if folder is Some {
            folder
        } else {
            embedded
        },
        CoverArtStrategy::EmbeddedOnly => embedded,
        CoverArtStrategy::FolderOnly => folder,
    }
}

/// Chooses a track's cover; `folder` is the folder cover when it was read
/// (see `needs_folder_cover`).
pub fn cover_for_track(strategy: CoverArtStrategy, embedded: Option<CoverArt>, folder: Option<CoverArt>) -> (r: Option<CoverArt>)
    ensures
        r == choose_cover_spec(strategy, embedded, folder),
{
    match strategy {
        CoverArtStrategy::EmbeddedThenFolder => if embedded.is_some() {
            embedded
        } else {
            folder
        },
        CoverArtStrategy::FolderThenEmbedded => if folder.is_some() {
            folder
        } else {
            embedded
        },
        CoverArtStrategy::EmbeddedOnly => embedded,
        CoverArtStrategy::FolderOnly => folder,
    }
}

/// The name a cover is cached under: `{artist}-{album}`, or the album.
pub open spec fn cover_hint_spec(artist: Option<Seq<char>>, album: Seq<char>) -> Seq<char> {
    match artist {
        Some(a) => a + "-"@ + album,
        None => album,
    }
}

/// The cache name of an album's cover.
pub fn cover_hint(artist: Option<&str>, album: &str) -> (r: String)
    ensures
        r@ == cover_hint_spec(crate::media::opt_str_view(artist), album@),
{
    let mut c: Vec<char> = Vec::new();
    match artist {
        Some(a) => {
            push_str_chars(&mut c, a);
            push_str_chars(&mut c, "-");
            push_str_chars(&mut c, album);
        },
        None => push_str_chars(&mut c, album),
    }
    string_from_chars(c.as_slice())
}

/// `.audio-hub/art/{name}`.
pub open spec fn cache_relative(name: Seq<char>) -> Seq<char> {
    COVER_CACHE_DIR@ + "/"@ + name
}

fn cache_path(name: &str) -> (r: String)
    ensures
        r@ == cache_relative(name@),
{
    let mut c: Vec<char> = Vec::new();
    push_str_chars(&mut c, COVER_CACHE_DIR);
    push_str_chars(&mut c, "/");
    push_str_chars(&mut c, name);
    string_from_chars(c.as_slice())
}

/// Index of the first name that starts with a prefix.
pub open spec fn first_with_prefix(names: Seq<String>, prefix: Seq<char>) -> Option<int>
    decreases names.len(),
{
    if names.len() == 0 {
        None
    } else if prefix.is_prefix_of(names[0]@) {
        Some(0)
    } else {
        match first_with_prefix(names.drop_first(), prefix) {
            Some(i) => Some(i + 1),
            None => None,
        }
    }
}

proof fn lemma_first_with_prefix(names: Seq<String>, prefix: Seq<char>)
    ensures
        first_with_prefix(names, prefix) matches Some(i) ==> (0 <= i < names.len() && prefix.is_prefix_of(names[i]@)
            && forall|j: int| 0 <= j < i ==> !prefix.is_prefix_of(#[trigger] names[j]@)),
        first_with_prefix(names, prefix) is None ==> forall|j: int|
            0 <= j < names.len() ==> !prefix.is_prefix_of(#[trigger] names[j]@),
    decreases names.len(),
{
    if names.len() > 0 && !prefix.is_prefix_of(names[0]@) {
        let t = names.drop_first();
        lemma_first_with_prefix(t, prefix);
        assert forall|j: int| 0 < j < names.len() implies #[trigger] names[j] == t[j - 1] by {}
    }
}

/// The cached cover of a name: the first file of the cache folder, in the
/// order listed, whose name starts with the slug of the name and `-`; given
/// as a path relative to the media root.
pub fn find_cached_cover(hint: &str, names: &Vec<String>) -> (r: Option<String>)
    ensures
        match first_with_prefix(names@, slug(hint@) + "-"@) {
            Some(i) => r matches Some(p) && p@ == cache_relative(names@[i]@),
            None => r is None,
        },
{
    let s = slugify(hint);
    let mut pc: Vec<char> = Vec::new();
    push_str_chars(&mut pc, s.as_str());
    push_str_chars(&mut pc, "-");
    let prefix = string_from_chars(pc.as_slice());
    proof {
        lemma_first_with_prefix(names@, prefix@);
    }
    let mut i: usize = 0;
    while i < names.len()
        invariant
            i <= names@.len(),
            prefix@ == slug(hint@) + "-"@,
            forall|j: int| 0 <= j < i ==> !prefix@.is_prefix_of(#[trigger] names@[j]@),
            first_with_prefix(names@, prefix@) matches Some(k) ==> (0 <= k < names@.len() && prefix@.is_prefix_of(
                names@[k]@,
            ) && forall|j: int| 0 <= j < k ==> !prefix@.is_prefix_of(#[trigger] names@[j]@)),
            first_with_prefix(names@, prefix@) is None ==> forall|j: int|
                0 <= j < names@.len() ==> !prefix@.is_prefix_of(#[trigger] names@[j]@),
        decreases names@.len() - i,
    {
        if str_starts_with(names[i].as_str(), prefix.as_str()) {
            proof {
                if let Some(k) = first_with_prefix(names@, prefix@) {
                    if k < i {
                        assert(!prefix@.is_prefix_of(names@[k]@));
                    }
                    if k > i {
                        assert(!prefix@.is_prefix_of(names@[i as int]@));
                    }
                }
            }
            return Some(cache_path(names[i].as_str()));
        }
        i = i + 1;
    }
    proof {
        if let Some(k) = first_with_prefix(names@, prefix@) {
            assert(!prefix@.is_prefix_of(names@[k]@));
        }
    }
    None
}

/// The file name a cover is stored under: the slug of its name, its
/// checksum as sixteen hex digits and the extension of its MIME type
/// (`bin` when unknown).
pub open spec fn cover_store_name(hint: Seq<char>, mime: Seq<char>, data: Seq<u8>) -> Seq<char> {
    slug(hint) + "-"@ + hex_digits(default_hash(data) as nat, 16) + "."@ + match cover_extension_for_mime(mime) {
        Some(e) => e,
        None => "bin"@,
    }
}

/// Where a cover is stored, relative to the media root; it is written
/// there unless a file already is.
pub fn cover_store_path(hint: &str, mime_type: &str, data: &[u8]) -> (r: String)
    ensures
        r@ == cache_relative(cover_store_name(hint@, mime_type@, data@)),
{
    let ext: &str = match cover_extension_for_mime_type(mime_type) {
        Some(e) => e,
        None => "bin",
    };
    let s = slugify(hint);
    let h = hash_bytes(data);
    let mut c: Vec<char> = Vec::new();
    push_str_chars(&mut c, s.as_str());
    push_str_chars(&mut c, "-");
    push_str_chars(&mut c, h.as_str());
    push_str_chars(&mut c, ".");
    push_str_chars(&mut c, ext);
    let name = string_from_chars(c.as_slice());
    cache_path(name.as_str())
}

/// The album and artist a track's cover belongs to: its album, and its
/// album artist or else its artist; none without an album.
pub fn cover_owner(record: &TrackRecord) -> (r: Option<(String, Option<String>)>)
    ensures
        match record.album {
            None => r is None,
            Some(al) => r matches Some((a, ar)) && a@ == al@ && opt_string_view(ar) == match record.album_artist {
                Some(x) => Some(x@),
                None => opt_string_view(record.artist),
            },
        },
{
    let album = match &record.album {
        Some(a) => a.clone(),
        None => {
            return None;
        },
    };
    let artist = match &record.album_artist {
        Some(x) => Some(x.clone()),
        None => match &record.artist {
            Some(x) => Some(x.clone()),
            None => None,
        },
    };
    Some((album, artist))
}

/// What applying a track's cover does.
#[derive(Debug)]
pub enum CoverApply {
    /// Nothing: no album, a cover already set, or no cover found.
    Skip,
    /// Set this cached cover (relative path).
    UseCached(String),
    /// Store the cover at this relative path and set it.
    Store(String),
}

/// Plans the cover of a track's album: `has_cover` tells whether the album
/// has one already, `cover` is the track's cover and `cache_names` the
/// files of the cover cache.
pub fn plan_cover_apply(record: &TrackRecord, has_cover: bool, cover: &Option<CoverArt>, cache_names: &Vec<String>) -> (r: CoverApply)
    ensures
        (record.album is None || has_cover || cover is None) ==> r is Skip,
        match (record.album, *cover) {
            (Some(al), Some(c)) => !has_cover ==> ({
                let artist = match record.album_artist {
                    Some(x) => Some(x@),
                    None => opt_string_view(record.artist),
                };
                let hint = cover_hint_spec(artist, al@);
                match first_with_prefix(cache_names@, slug(hint) + "-"@) {
                    Some(i) => r matches CoverApply::UseCached(p) && p@ == cache_relative(cache_names@[i]@),
                    None => r matches CoverApply::Store(p) && p@ == cache_relative(cover_store_name(hint, c.mime_type@, c.data@)),
                }
            }),
            _ => true,
        },
{
    let (album, artist) = match cover_owner(record) {
        Some(x) => x,
        None => {
            return CoverApply::Skip;
        },
    };
    if has_cover {
        return CoverApply::Skip;
    }
    let c = match cover {
        Some(c) => c,
        None => {
            return CoverApply::Skip;
        },
    };
    let hint = match &artist {
        Some(a) => cover_hint(Some(a.as_str()), album.as_str()),
        None => cover_hint(None, album.as_str()),
    };
    match find_cached_cover(hint.as_str(), cache_names) {
        Some(p) => CoverApply::UseCached(p),
        None => CoverApply::Store(cover_store_path(hint.as_str(), c.mime_type.as_str(), c.data.as_slice())),
    }
}

/// `album-{id}`, the cache name of a fetched album cover.
pub open spec fn album_hint_spec(album_id: i64) -> Seq<char> {
    "album-"@ + decimal(album_id as int)
}

/// The cache name of a fetched album cover.
pub fn album_cover_hint(album_id: i64) -> (r: String)
    ensures
        r@ == album_hint_spec(album_id),
{
    let mut c: Vec<char> = Vec::new();
    push_str_chars(&mut c, "album-");
    push_decimal_i64(&mut c, album_id);
    string_from_chars(c.as_slice())
}

/// `{CAA_BASE_URL}/{mbid}/front-500`, the front cover of a release.
pub open spec fn front_url_spec(mbid: Seq<char>) -> Seq<char> {
    CAA_BASE_URL@ + "/"@ + mbid + "/front-500"@
}

/// The Cover Art Archive URL of a release's front cover.
pub fn cover_front_url(mbid: &str) -> (r: String)
    ensures
        r@ == front_url_spec(mbid@),
{
    let mut c: Vec<char> = Vec::new();
    push_str_chars(&mut c, CAA_BASE_URL);
    push_str_chars(&mut c, "/");
    push_str_chars(&mut c, mbid);
    push_str_chars(&mut c, "/front-500");
    string_from_chars(c.as_slice())
}

/// What a fetched cover leads to.
#[derive(Debug)]
pub enum FetchedCover {
    /// The request failed: try the next release, else count a failure
    /// with this error.
    Failed(String),
    /// The response was empty: a failure, `empty response`.
    Empty,
    /// Store this image (MIME type, bytes).
    Image(String, Vec<u8>),
}

/// Reads the outcome of a front-cover request.
pub fn read_fetched_cover(fetched: Result<(String, Vec<u8>), String>) -> (r: FetchedCover)
    ensures
        match fetched {
            Err(e) => r matches FetchedCover::Failed(x) && x@ == e@,
            Ok((m, d)) => if d@.len() == 0 {
                r is Empty
            } else {
                r matches FetchedCover::Image(x, y) && x@ == m@ && y@ == d@
            },
        },
{
    match fetched {
        Err(e) => FetchedCover::Failed(e),
        Ok((m, d)) => {
            if d.len() == 0 {
                FetchedCover::Empty
            } else {
                FetchedCover::Image(m, d)
            }
        },
    }
}

} // verus!
