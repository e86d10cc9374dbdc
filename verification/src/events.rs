//! Events published to subscribers: metadata work, hub changes and server
//! log lines, with the rolling buffer of recent log lines and the reading
//! of a log event's fields.

use vstd::prelude::*;
use crate::strings::{chars_of, string_from_chars};
use crate::text::{push_str_chars, trim_char, trim_char_chars};

verus! {

/// Metadata and background-work events.
#[derive(Debug, Clone)]
pub enum MetadataEvent {
    LibraryScanAlbumStart { album: String },
    LibraryScanAlbumFinish { album: String, tracks: usize },
    MusicBrainzBatch { count: usize },
    MusicBrainzLookupStart { track_id: Option<i64>, title: String, artist: String, album: Option<String> },
    MusicBrainzLookupSuccess {
        track_id: Option<i64>,
        recording_mbid: Option<String>,
        artist_mbid: Option<String>,
        album_mbid: Option<String>,
    },
    MusicBrainzLookupNoMatch {
        track_id: Option<i64>,
        title: String,
        artist: String,
        album: Option<String>,
        query: String,
        top_score: Option<i32>,
        best_recording_id: Option<String>,
        best_recording_title: Option<String>,
    },
    MusicBrainzLookupFailure { track_id: Option<i64>, error: String },
    CoverArtBatch { count: usize },
    CoverArtFetchStart { album_id: i64, mbid: String },
    CoverArtFetchSuccess { album_id: i64 },
    CoverArtFetchFailure { album_id: i64, mbid: String, error: String, attempts: i64 },
    AlbumNormalization {
        track_id: Option<i64>,
        original_album: String,
        normalized_album: String,
        disc_number: Option<u32>,
        source: String,
    },
}

/// A server log line.
#[derive(Debug, Clone)]
pub struct LogEvent {
    /// Level name.
    pub level: String,
    /// Module the line comes from.
    pub target: String,
    /// Message with its fields.
    pub message: String,
    /// Unix time in milliseconds.
    pub timestamp_ms: i64,
}

/// Changes announced to subscribers.
#[derive(Debug, Clone)]
pub enum HubEvent {
    QueueChanged,
    StatusChanged,
    OutputsChanged,
    LibraryChanged,
    Metadata(MetadataEvent),
}

/// The last `capacity` items of a sequence.
pub open spec fn keep_last<T>(s: Seq<T>, capacity: nat) -> Seq<T> {
    if s.len() > capacity {
        s.skip(s.len() - capacity)
    } else {
        s
    }
}

/// The rolling buffer of recent log lines.
pub struct LogBuffer {
    buffer: Vec<LogEvent>,
    capacity: usize,
}

impl LogBuffer {
    #[verifier::type_invariant]
    closed spec fn within_capacity(self) -> bool {
        self.buffer@.len() <= self.capacity
    }

    /// The buffered lines, oldest first.
    pub closed spec fn lines(&self) -> Seq<LogEvent> {
        self.buffer@
    }

    /// How many lines are kept.
    pub closed spec fn cap(&self) -> nat {
        self.capacity as nat
    }

    /// An empty buffer keeping `capacity` lines.
    pub fn new(capacity: usize) -> (r: Self)
        ensures
            r.lines().len() == 0,
            r.cap() == capacity,
    {
        LogBuffer { buffer: Vec::new(), capacity }
    }

    /// Appends a line, dropping the oldest ones beyond the capacity.
    pub fn publish(&mut self, event: LogEvent)
        ensures
            final(self).cap() == old(self).cap(),
            final(self).lines() == keep_last(old(self).lines().push(event), old(self).cap()),
            final(self).lines().len() <= final(self).cap(),
    {
        proof {
            use_type_invariant(&*self);
        }
        let ghost all = self.buffer@.push(event);
        let mut buf: Vec<LogEvent> = Vec::new();
        std::mem::swap(&mut buf, &mut self.buffer);
        buf.push(event);
        if buf.len() > self.capacity {
            buf.remove(0);
            assert(buf@ =~= all.skip(all.len() - self.capacity));
        }
        self.buffer = buf;
    }

    /// The buffered lines, oldest first.
    pub fn snapshot(&self) -> (r: Vec<LogEvent>)
        ensures
            r@ == self.lines(),
    {
        let mut out: Vec<LogEvent> = Vec::new();
        let mut i: usize = 0;
        while i < self.buffer.len()
            invariant
                i <= self.buffer@.len(),
                out@ == self.buffer@.take(i as int),
            decreases self.buffer@.len() - i,
        {
            out.push(copy_log_event(&self.buffer[i]));
            assert(out@ =~= self.buffer@.take(i + 1));
            i = i + 1;
        }
        assert(self.buffer@.take(self.buffer@.len() as int) =~= self.buffer@);
        out
    }

    /// Forgets the buffered lines.
    pub fn clear(&mut self)
        ensures
            final(self).lines().len() == 0,
            final(self).cap() == old(self).cap(),
    {
        self.buffer = Vec::new();
    }
}

/// A copy of a log line.
pub fn copy_log_event(e: &LogEvent) -> (r: LogEvent)
    ensures
        r == *e,
{
    LogEvent { level: e.level.clone(), target: e.target.clone(), message: e.message.clone(), timestamp_ms: e.timestamp_ms }
}

/// The fields of a log event as read: its message and its other fields
/// as `name=value`, in order.
pub struct LogVisitor {
    pub message: Option<String>,
    pub fields: Vec<String>,
}

/// `name=value`.
pub open spec fn field_text(name: Seq<char>, value: Seq<char>) -> Seq<char> {
    name + "="@ + value
}

/// The views of strings.
pub open spec fn text_views(v: Seq<String>) -> Seq<Seq<char>> {
    v.map_values(|s: String| s@)
}

/// The text of a log line: the message (`log event` when there is none),
/// then the fields separated by spaces.
pub open spec fn log_message_spec(message: Option<Seq<char>>, fields: Seq<Seq<char>>) -> Seq<char> {
    let m = match message {
        Some(m) => m,
        None => "log event"@,
    };
    if fields.len() == 0 {
        m
    } else {
        m + " "@ + join_spaced(fields)
    }
}

/// Texts joined with single spaces.
pub open spec fn join_spaced(v: Seq<Seq<char>>) -> Seq<char>
    decreases v.len(),
{
    if v.len() == 0 {
        Seq::empty()
    } else if v.len() == 1 {
        v[0]
    } else {
        join_spaced(v.drop_last()) + " "@ + v.last()
    }
}

impl LogVisitor {
    /// Nothing read yet.
    pub fn new() -> (r: Self)
        ensures
            r.message is None,
            r.fields@.len() == 0,
    {
        LogVisitor { message: None, fields: Vec::new() }
    }

    /// Reads a text field: `message` is the message, any other is kept as
    /// `name=value`.
    pub fn record_str(&mut self, name: &str, value: &str)
        ensures
            name@ == "message"@ ==> (final(self).message matches Some(m) && m@ == value@) && final(self).fields
                == old(self).fields,
            name@ != "message"@ ==> final(self).message == old(self).message && text_views(final(self).fields@)
                == text_views(old(self).fields@).push(field_text(name@, value@)),
    {
        if crate::text::str_eq(name, "message") {
            self.message = Some(value.to_string());
        } else {
            self.push_field(name, value);
        }
    }

    /// Reads a field given in its debug form: for the message, surrounding
    /// quotes are dropped.
    pub fn record_debug(&mut self, name: &str, formatted: &str)
        ensures
            name@ == "message"@ ==> (final(self).message matches Some(m) && m@ == trim_char(formatted@, '"'))
                && final(self).fields == old(self).fields,
            name@ != "message"@ ==> final(self).message == old(self).message && text_views(final(self).fields@)
                == text_views(old(self).fields@).push(field_text(name@, formatted@)),
    {
        if crate::text::str_eq(name, "message") {
            let t = trim_char_chars(chars_of(formatted).as_slice(), '"');
            self.message = Some(string_from_chars(t.as_slice()));
        } else {
            self.push_field(name, formatted);
        }
    }

    fn push_field(&mut self, name: &str, value: &str)
        ensures
            final(self).message == old(self).message,
            text_views(final(self).fields@) == text_views(old(self).fields@).push(field_text(name@, value@)),
    {
        let mut c: Vec<char> = Vec::new();
        push_str_chars(&mut c, name);
        push_str_chars(&mut c, "=");
        push_str_chars(&mut c, value);
        let s = string_from_chars(c.as_slice());
        let ghost before = self.fields@;
        self.fields.push(s);
        proof {
            assert(text_views(self.fields@) =~= text_views(before).push(field_text(name@, value@)));
        }
    }

    /// The text of the log line.
    pub fn into_message(&self) -> (r: String)
        ensures
            r@ == log_message_spec(
                match self.message {
                    Some(m) => Some(m@),
                    None => None,
                },
                text_views(self.fields@),
            ),
    {
        let mut c: Vec<char> = Vec::new();
        match &self.message {
            Some(m) => push_str_chars(&mut c, m.as_str()),
            None => push_str_chars(&mut c, "log event"),
        }
        let ghost m = c@;
        if self.fields.len() > 0 {
            push_str_chars(&mut c, " ");
            let ghost head = c@;
            let mut i: usize = 0;
            while i < self.fields.len()
                invariant
                    i <= self.fields@.len(),
                    self.fields@.len() > 0,
                    c@ == head + join_spaced(text_views(self.fields@).take(i as int)),
                decreases self.fields@.len() - i,
            {
                let ghost before = c@;
                if i > 0 {
                    c.push(' ');
                }
                push_str_chars(&mut c, self.fields[i].as_str());
                proof {
                    reveal_strlit(" ");
                    let t = text_views(self.fields@).take(i + 1);
                    assert(t.drop_last() =~= text_views(self.fields@).take(i as int));
                    assert(t.last() == self.fields@[i as int]@);
                    if i == 0 {
                        assert(c@ =~= head + t[0]);
                    } else {
                        assert(c@ =~= head + (join_spaced(t.drop_last()) + " "@ + t.last()));
                    }
                }
                i = i + 1;
            }
            assert(text_views(self.fields@).take(self.fields@.len() as int) =~= text_views(self.fields@));
            assert(c@ =~= m + " "@ + join_spaced(text_views(self.fields@)));
        } else {
            assert(text_views(self.fields@).len() == 0);
        }
        string_from_chars(c.as_slice())
    }
}

} // verus!
