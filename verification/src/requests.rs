//! Query strings and small bodies of the HTTP API, with their defaults.

use vstd::prelude::*;
use crate::edits::list_paging;

verus! {

/// Directory to list; the library root when missing.
#[derive(Debug, Clone)]
pub struct LibraryQuery {
    pub dir: Option<String>,
}

/// File to stream, under the library root.
#[derive(Debug, Clone)]
pub struct StreamQuery {
    pub path: String,
}

/// Position to seek to, in milliseconds.
#[derive(Debug, Clone, Copy, PartialEq, Eq, Structural)]
pub struct SeekBody {
    pub ms: u64,
}

/// A session's seek position, in milliseconds.
#[derive(Debug, Clone, Copy, PartialEq, Eq, Structural)]
pub struct SessionSeekBody {
    pub ms: u64,
}

/// A searchable, paged list.
#[derive(Debug, Clone)]
pub struct ListQuery {
    pub search: Option<String>,
    pub limit: Option<i64>,
    pub offset: Option<i64>,
}

/// Albums, optionally of one artist.
#[derive(Debug, Clone)]
pub struct AlbumListQuery {
    pub artist_id: Option<i64>,
    pub search: Option<String>,
    pub limit: Option<i64>,
    pub offset: Option<i64>,
}

/// Tracks, optionally of one album or artist.
#[derive(Debug, Clone)]
pub struct TrackListQuery {
    pub album_id: Option<i64>,
    pub artist_id: Option<i64>,
    pub search: Option<String>,
    pub limit: Option<i64>,
    pub offset: Option<i64>,
}

/// A track to read again from disk.
#[derive(Debug, Clone)]
pub struct RescanTrackRequest {
    pub path: String,
}

/// A track whose cover art is asked for.
#[derive(Debug, Clone)]
pub struct ArtQuery {
    pub path: String,
}

/// A track path to resolve to its id.
#[derive(Debug, Clone)]
pub struct TrackResolveQuery {
    pub path: String,
}

/// A track whose tags are asked for.
#[derive(Debug, Clone)]
pub struct TrackMetadataQuery {
    pub path: String,
}

/// An album whose tags are asked for.
#[derive(Debug, Clone, Copy, PartialEq, Eq, Structural)]
pub struct AlbumMetadataQuery {
    pub album_id: i64,
}

/// The album whose cover is served.
#[derive(Debug, Clone, Copy, PartialEq, Eq, Structural)]
pub struct CoverPath {
    pub id: i64,
}

/// Who looks at the session list: local sessions show only to the client
/// that owns them.
#[derive(Debug, Clone)]
pub struct SessionViewerQuery {
    pub client_id: Option<String>,
}

/// The health answer.
#[derive(Debug, Clone, Copy)]
pub struct HealthResponse {
    /// Always `ok`.
    pub status: &'static str,
}

/// The health answer of a running server.
pub fn health_response() -> (r: HealthResponse)
    ensures
        r.status@ == "ok"@,
{
    HealthResponse { status: "ok" }
}

/// When the log buffer was cleared.
#[derive(Debug, Clone, Copy, PartialEq, Eq, Structural)]
pub struct LogsClearResponse {
    /// Unix time in milliseconds.
    pub cleared_at_ms: i64,
}

impl ListQuery {
    /// The limit and offset applied (see `list_paging`).
    pub fn paging(&self) -> (r: (i64, i64))
        ensures
            r == list_paging_spec(self.limit, self.offset),
    {
        list_paging(self.limit, self.offset)
    }
}

impl AlbumListQuery {
    /// The limit and offset applied (see `list_paging`).
    pub fn paging(&self) -> (r: (i64, i64))
        ensures
            r == list_paging_spec(self.limit, self.offset),
    {
        list_paging(self.limit, self.offset)
    }
}

impl TrackListQuery {
    /// The limit and offset applied (see `list_paging`).
    pub fn paging(&self) -> (r: (i64, i64))
        ensures
            r == list_paging_spec(self.limit, self.offset),
    {
        list_paging(self.limit, self.offset)
    }
}

/// The limit (default 200, within 1..=1000) and offset (default 0, at
/// least 0) of a list query.
pub open spec fn list_paging_spec(limit: Option<i64>, offset: Option<i64>) -> (i64, i64) {
    (
        match limit {
            Some(l) => if l < 1 {
                1
            } else if l > 1000 {
                1000
            } else {
                l
            },
            None => 200,
        },
        match offset {
            Some(o) => if o < 0 {
                0
            } else {
                o
            },
            None => 0,
        },
    )
}

} // verus!
