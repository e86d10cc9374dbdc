//! The hub's side of the bridge HTTP API: stream URLs handed to bridges,
//! the bodies exchanged, and the reading of server-sent event streams.

use vstd::prelude::*;
use vstd::utf8::{decode_utf8, encode_utf8, valid_utf8};
use crate::strings::{chars_of, string_from_chars};
use crate::text::{
    decimal, push_chars, push_decimal_i64, push_str_chars, sub_chars, trim, trim_char_end,
    trim_chars, trim_end_char_chars, trim_start, trim_start_chars,
};

verus! {

/// Devices reported by a bridge.
#[derive(Debug, Clone)]
pub struct HttpDevicesResponse {
    pub devices: Vec<HttpDeviceInfo>,
}

/// A bridge output device.
#[derive(Debug, Clone, PartialEq, Eq)]
pub struct HttpDeviceInfo {
    pub id: String,
    pub name: String,
    /// Lowest supported sample rate (Hz).
    pub min_rate: u32,
    /// Highest supported sample rate (Hz).
    pub max_rate: u32,
}

/// Devices of a bridge with its selection, as streamed.
#[derive(Debug, Clone, PartialEq, Eq)]
pub struct HttpDevicesSnapshot {
    pub devices: Vec<HttpDeviceInfo>,
    pub selected: Option<String>,
    pub selected_id: Option<String>,
}

/// Volume of a bridge.
#[derive(Debug, Clone, Copy, PartialEq, Eq, Structural)]
pub struct HttpVolumeResponse {
    pub value: u8,
    pub muted: bool,
}

/// Volume sent to a bridge: at most 100.
pub fn clamp_volume(value: u8) -> (r: u8)
    ensures
        r == if value > 100 {
            100
        } else {
            value
        },
{
    if value > 100 {
        100
    } else {
        value
    }
}

/// Bytes left as they are by URL encoding: ASCII letters and digits, `-`,
/// `.`, `_` and `~`.
pub open spec fn unreserved(b: u8) -> bool {
    (48 <= b <= 57) || (65 <= b <= 90) || (97 <= b <= 122) || b == 45 || b == 46 || b == 95 || b == 126
}

/// Uppercase hex digit of a value below sixteen.
pub open spec fn upper_hex(d: u8) -> char {
    if d < 10 {
        ((48 + d) as u8) as char
    } else {
        ((55 + d) as u8) as char
    }
}

/// Percent-encoding of bytes: unreserved bytes as they are, every other
/// byte as `%` and two uppercase hex digits.
pub open spec fn percent_encoded(bytes: Seq<u8>) -> Seq<char>
    decreases bytes.len(),
{
    if bytes.len() == 0 {
        Seq::empty()
    } else {
        percent_encoded(bytes.drop_last()) + if unreserved(bytes.last()) {
            seq![bytes.last() as char]
        } else {
            seq!['%', upper_hex(bytes.last() / 16), upper_hex(bytes.last() % 16)]
        }
    }
}

/// `urlencoding::encode`: percent-encodes every byte of the UTF-8 text
/// except ASCII letters, digits, `-`, `_`, `.` and `~`, with uppercase hex.
#[verifier::external_body]
fn url_encode(data: &str) -> (r: String)
    ensures
        r@ == percent_encoded(encode_utf8(data@)),
{
    urlencoding::encode(data).into_owned()
}

/// Stream URL of a file: `{base}/stream?path={encoded path}`, the base
/// without trailing `/`.
pub open spec fn stream_url_spec(path: Seq<char>, base: Seq<char>) -> Seq<char> {
    trim_char_end(base, '/') + "/stream?path="@ + percent_encoded(encode_utf8(path))
}

/// Stream URL of a library track: `{base}/stream/track/{id}`, the base
/// without trailing `/`.
pub open spec fn stream_url_id_spec(track_id: i64, base: Seq<char>) -> Seq<char> {
    trim_char_end(base, '/') + "/stream/track/"@ + decimal(track_id as int)
}

fn base_chars(base: &str) -> (r: Vec<char>)
    ensures
        r@ == trim_char_end(base@, '/'),
{
    let c = chars_of(base);
    trim_end_char_chars(c.as_slice(), '/')
}

/// Builds the stream URL of a file for a bridge.
pub fn build_stream_url_for(path: &str, public_base_url: &str) -> (r: String)
    ensures
        r@ == stream_url_spec(path@, public_base_url@),
{
    let mut out = base_chars(public_base_url);
    push_str_chars(&mut out, "/stream?path=");
    let encoded = url_encode(path);
    push_str_chars(&mut out, encoded.as_str());
    string_from_chars(out.as_slice())
}

/// Builds the stream URL of a library track for a bridge.
pub fn build_stream_url_for_id(track_id: i64, public_base_url: &str) -> (r: String)
    ensures
        r@ == stream_url_id_spec(track_id, public_base_url@),
{
    let mut out = base_chars(public_base_url);
    push_str_chars(&mut out, "/stream/track/");
    push_decimal_i64(&mut out, track_id);
    string_from_chars(out.as_slice())
}

/// The URL a bridge plays a file from: by track id when the library knows
/// the file, by path otherwise.
pub fn play_url(path: &str, track_id: Option<i64>, public_base_url: &str) -> (r: String)
    ensures
        r@ == match track_id {
            Some(id) => stream_url_id_spec(id, public_base_url@),
            None => stream_url_spec(path@, public_base_url@),
        },
{
    match track_id {
        Some(id) => build_stream_url_for_id(id, public_base_url),
        None => build_stream_url_for(path, public_base_url),
    }
}

/// What `String::from_utf8_lossy` gives for some bytes.
pub uninterp spec fn utf8_lossy(bytes: Seq<u8>) -> Seq<char>;

/// `String::from_utf8_lossy`: the text of the bytes, with each invalid
/// sequence replaced; well-formed UTF-8 decodes as it is.
#[verifier::external_body]
fn decode_lossy(bytes: &[u8]) -> (r: String)
    ensures
        r@ == utf8_lossy(bytes@),
        valid_utf8(bytes@) ==> r@ == decode_utf8(bytes@),
{
    String::from_utf8_lossy(bytes).into_owned()
}

/// The text a line's bytes are read as: their UTF-8 decoding when they
/// are well-formed, else what `String::from_utf8_lossy` gives.
pub open spec fn lossy_text(bytes: Seq<u8>) -> Seq<char> {
    if valid_utf8(bytes) {
        decode_utf8(bytes)
    } else {
        utf8_lossy(bytes)
    }
}

/// `s` without its trailing `\r` and `\n` characters.
pub open spec fn strip_line_end(s: Seq<char>) -> Seq<char>
    decreases s.len(),
{
    if s.len() > 0 && (s.last() == '\r' || s.last() == '\n') {
        strip_line_end(s.drop_last())
    } else {
        s
    }
}

/// Lines joined with `\n`.
pub open spec fn join_lines(lines: Seq<Seq<char>>) -> Seq<char>
    decreases lines.len(),
{
    if lines.len() == 0 {
        Seq::empty()
    } else if lines.len() == 1 {
        lines[0]
    } else {
        join_lines(lines.drop_last()) + seq!['\n'] + lines.last()
    }
}

/// An event read from a stream: its name and its data.
#[derive(Debug, Clone)]
pub struct SseEvent {
    pub event: String,
    pub data: String,
}

/// The reading of one line of an event stream, from the event name and
/// data lines read so far: a blank line ends the event (emitted when it
/// has data) and starts a new one; `event:` sets the name (trimmed);
/// `data:` adds a data line (trimmed at its start); other lines are
/// ignored.
pub open spec fn line_step(event: Seq<char>, data: Seq<Seq<char>>, line: Seq<char>) -> (Seq<char>, Seq<Seq<char>>, Option<(Seq<char>, Seq<char>)>) {
    if line.len() == 0 {
        (Seq::empty(), Seq::empty(), if data.len() > 0 {
            Some((event, join_lines(data)))
        } else {
            None
        })
    } else if "event:"@.is_prefix_of(line) {
        (trim(line.skip(6)), data, None)
    } else if "data:"@.is_prefix_of(line) {
        (event, data.push(trim_start(line.skip(5))), None)
    } else {
        (event, data, None)
    }
}

/// Position of the first newline byte.
pub open spec fn newline_at(buf: Seq<u8>) -> Option<int>
    decreases buf.len(),
{
    if buf.len() == 0 {
        None
    } else if buf[0] == 10 {
        Some(0)
    } else {
        match newline_at(buf.drop_first()) {
            Some(i) => Some(i + 1),
            None => None,
        }
    }
}

/// The reading of buffered bytes: every complete line in turn, leaving
/// the incomplete rest; gives the state after it and the events completed,
/// in order.
pub open spec fn read_lines(event: Seq<char>, data: Seq<Seq<char>>, buf: Seq<u8>) -> (Seq<char>, Seq<Seq<char>>, Seq<u8>, Seq<(Seq<char>, Seq<char>)>)
    decreases buf.len(),
{
    match newline_at(buf) {
        None => (event, data, buf, Seq::empty()),
        Some(p) => {
            proof {
                lemma_newline_at(buf);
            }
            let line = strip_line_end(lossy_text(buf.take(p + 1)));
            let (e2, d2, out) = line_step(event, data, line);
            let (e3, d3, rest, evs) = read_lines(e2, d2, buf.skip(p + 1));
            (
                e3,
                d3,
                rest,
                match out {
                    Some(x) => seq![x] + evs,
                    None => evs,
                },
            )
        },
    }
}

/// Where the first newline byte stands, when there is one.
pub proof fn lemma_newline_at(buf: Seq<u8>)
    ensures
        newline_at(buf) matches Some(p) ==> 0 <= p < buf.len() && buf[p] == 10 && forall|j: int|
            0 <= j < p ==> #[trigger] buf[j] != 10,
        newline_at(buf) is None ==> forall|j: int| 0 <= j < buf.len() ==> #[trigger] buf[j] != 10,
    decreases buf.len(),
{
    if buf.len() > 0 && buf[0] != 10 {
        let t = buf.drop_first();
        lemma_newline_at(t);
        assert forall|j: int| 0 < j < buf.len() implies #[trigger] buf[j] == t[j - 1] by {}
    }
}

/// The first newline byte stands where no earlier byte is one.
pub proof fn lemma_newline_first(buf: Seq<u8>, p: int)
    requires
        0 <= p < buf.len(),
        buf[p] == 10,
        forall|j: int| 0 <= j < p ==> #[trigger] buf[j] != 10,
    ensures
        newline_at(buf) == Some(p),
{
    lemma_newline_at(buf);
    match newline_at(buf) {
        Some(m) => {
            if m < p {
                assert(buf[m] != 10);
            }
            if m > p {
                assert(buf[p] != 10);
            }
        },
        None => {
            assert(buf[p] != 10);
        },
    }
}

/// Reader of a server-sent event stream, fed with the bytes as they
/// arrive.
pub struct SseReader {
    pending: Vec<u8>,
    event: Vec<char>,
    data: Vec<Vec<char>>,
}

/// The views of data lines.
pub open spec fn line_views(v: Seq<Vec<char>>) -> Seq<Seq<char>> {
    v.map_values(|l: Vec<char>| l@)
}

/// The views of events.
pub open spec fn event_views(v: Seq<SseEvent>) -> Seq<(Seq<char>, Seq<char>)> {
    v.map_values(|e: SseEvent| (e.event@, e.data@))
}

fn strip_end(v: &[char]) -> (r: Vec<char>)
    ensures
        r@ == strip_line_end(v@),
{
    let mut b: usize = v.len();
    assert(v@.subrange(0, v@.len() as int) =~= v@);
    while b > 0 && (v[b - 1] == '\r' || v[b - 1] == '\n')
        invariant
            b <= v@.len(),
            strip_line_end(v@) == strip_line_end(v@.subrange(0, b as int)),
        decreases b,
    {
        proof {
            let t = v@.subrange(0, b as int);
            assert(t.drop_last() =~= v@.subrange(0, b - 1));
        }
        b = b - 1;
    }
    sub_chars(v, 0, b)
}

fn has_prefix(v: &[char], p: &str) -> (r: bool)
    ensures
        r == p@.is_prefix_of(v@),
{
    let pc = chars_of(p);
    if pc.len() > v.len() {
        return false;
    }
    let head = sub_chars(v, 0, pc.len());
    assert(head@ =~= v@.take(pc@.len() as int));
    crate::text::chars_eq(head.as_slice(), pc.as_slice())
}

fn join_data(lines: &Vec<Vec<char>>) -> (r: Vec<char>)
    ensures
        r@ == join_lines(line_views(lines@)),
{
    let mut out: Vec<char> = Vec::new();
    let mut i: usize = 0;
    while i < lines.len()
        invariant
            i <= lines@.len(),
            out@ == join_lines(line_views(lines@).take(i as int)),
        decreases lines@.len() - i,
    {
        let ghost before = out@;
        if i > 0 {
            out.push('\n');
        }
        push_chars(&mut out, lines[i].as_slice());
        proof {
            let t = line_views(lines@).take(i + 1);
            assert(t.drop_last() =~= line_views(lines@).take(i as int));
            assert(t.last() == lines@[i as int]@);
            if i == 0 {
                assert(out@ =~= t[0]);
            } else {
                assert(out@ =~= before + seq!['\n'] + t.last());
            }
        }
        i = i + 1;
    }
    proof {
        assert(line_views(lines@).take(lines@.len() as int) =~= line_views(lines@));
    }
    out
}

impl SseReader {
    /// The incomplete line buffered so far.
    pub closed spec fn pending_bytes(&self) -> Seq<u8> {
        self.pending@
    }

    /// The name of the event being read.
    pub closed spec fn event_name(&self) -> Seq<char> {
        self.event@
    }

    /// The data lines of the event being read.
    pub closed spec fn data_lines(&self) -> Seq<Seq<char>> {
        line_views(self.data@)
    }

    /// A reader at the start of a stream.
    pub fn new() -> (r: Self)
        ensures
            r.pending_bytes().len() == 0,
            r.event_name().len() == 0,
            r.data_lines().len() == 0,
    {
        let r = SseReader { pending: Vec::new(), event: Vec::new(), data: Vec::new() };
        assert(line_views(r.data@) =~= Seq::<Seq<char>>::empty());
        r
    }

    fn on_line(&mut self, line: &[char]) -> (r: Option<SseEvent>)
        ensures
            ({
                let (e2, d2, out) = line_step(old(self).event_name(), old(self).data_lines(), line@);
                &&& final(self).event_name() == e2
                &&& final(self).data_lines() == d2
                &&& final(self).pending_bytes() == old(self).pending_bytes()
                &&& match out {
                    Some((n, d)) => r matches Some(ev) && ev.event@ == n && ev.data@ == d,
                    None => r is None,
                }
            }),
    {
        if line.len() == 0 {
            let out = if self.data.len() > 0 {
                let data = join_data(&self.data);
                Some(
                    SseEvent {
                        event: string_from_chars(self.event.as_slice()),
                        data: string_from_chars(data.as_slice()),
                    },
                )
            } else {
                None
            };
            self.event = Vec::new();
            self.data = Vec::new();
            proof {
                assert(line_views(self.data@) =~= Seq::<Seq<char>>::empty());
            }
            return out;
        }
        proof {
            reveal_strlit("event:");
            reveal_strlit("data:");
        }
        if has_prefix(line, "event:") {
            let rest = sub_chars(line, 6, line.len());
            assert(rest@ =~= line@.skip(6));
            self.event = trim_chars(rest.as_slice());
        } else if has_prefix(line, "data:") {
            let rest = sub_chars(line, 5, line.len());
            assert(rest@ =~= line@.skip(5));
            let t = trim_start_chars(rest.as_slice());
            let ghost before = self.data@;
            let ghost tv = t@;
            self.data.push(t);
            proof {
                assert(line_views(self.data@) =~= line_views(before).push(tv));
            }
        }
        None
    }

    /// Feeds bytes received from the stream; returns the events they
    /// complete, in order.
    pub fn feed(&mut self, chunk: &[u8]) -> (r: Vec<SseEvent>)
        ensures
            ({
                let (e, d, rest, evs) = read_lines(
                    old(self).event_name(),
                    old(self).data_lines(),
                    old(self).pending_bytes() + chunk@,
                );
                &&& final(self).event_name() == e
                &&& final(self).data_lines() == d
                &&& final(self).pending_bytes() == rest
                &&& event_views(r@) == evs
            }),
    {
        let mut i: usize = 0;
        while i < chunk.len()
            invariant
                i <= chunk@.len(),
                self.pending@ == old(self).pending@ + chunk@.take(i as int),
                self.event == old(self).event,
                self.data == old(self).data,
            decreases chunk@.len() - i,
        {
            self.pending.push(chunk[i]);
            assert(chunk@.take(i + 1) =~= chunk@.take(i as int).push(chunk@[i as int]));
            i = i + 1;
        }
        assert(chunk@.take(chunk@.len() as int) =~= chunk@);
        let ghost total = self.pending@;
        let mut events: Vec<SseEvent> = Vec::new();
        let mut buf: Vec<u8> = Vec::new();
        std::mem::swap(&mut buf, &mut self.pending);
        let ghost goal = read_lines(old(self).event_name(), old(self).data_lines(), total);
        loop
            invariant
                self.pending@.len() == 0,
                ({
                    let (e, d, rest, evs) = read_lines(self.event_name(), self.data_lines(), buf@);
                    &&& goal.0 == e
                    &&& goal.1 == d
                    &&& goal.2 == rest
                    &&& goal.3 == event_views(events@) + evs
                }),
            ensures
                self.pending@.len() == 0,
                goal.0 == self.event_name(),
                goal.1 == self.data_lines(),
                goal.2 == buf@,
                goal.3 == event_views(events@),
            decreases buf@.len(),
        {
            let mut p: usize = 0;
            while p < buf.len() && buf[p] != 10
                invariant
                    p <= buf@.len(),
                    forall|j: int| 0 <= j < p ==> #[trigger] buf@[j] != 10,
                decreases buf@.len() - p,
            {
                p = p + 1;
            }
            if p == buf.len() {
                proof {
                    lemma_newline_at(buf@);
                    if let Some(m) = newline_at(buf@) {
                        assert(buf@[m] != 10);
                    }
                    assert(event_views(events@) + Seq::<(Seq<char>, Seq<char>)>::empty() =~= event_views(events@));
                }
                break;
            }
            proof {
                lemma_newline_first(buf@, p as int);
            }
            let line_bytes = crate::wire::slice_to_vec(buf.as_slice(), 0, p + 1);
            let rest = crate::wire::slice_to_vec(buf.as_slice(), p + 1, buf.len());
            let text = decode_lossy(line_bytes.as_slice());
            let tc = chars_of(text.as_str());
            let line = strip_end(tc.as_slice());
            proof {
                assert(line_bytes@ =~= buf@.take(p + 1));
                assert(rest@ =~= buf@.skip(p + 1));
            }
            let ghost ev_before = event_views(events@);
            let ghost s_ev = self.event_name();
            let ghost s_d = self.data_lines();
            let out = self.on_line(line.as_slice());
            match out {
                Some(ev) => {
                    let ghost evv = (ev.event@, ev.data@);
                    events.push(ev);
                    proof {
                        assert(event_views(events@) =~= ev_before.push(evv));
                    }
                },
                None => {},
            }
            proof {
                assert(text@ == lossy_text(line_bytes@));
                assert(line@ == strip_line_end(lossy_text(buf@.take(p + 1))));
                let (e2, d2, o) = line_step(s_ev, s_d, line@);
                let (e3, d3, r3, evs3) = read_lines(self.event_name(), self.data_lines(), rest@);
                match o {
                    Some(x) => {
                        assert(ev_before.push(x) + evs3 =~= ev_before + (seq![x] + evs3));
                    },
                    None => {},
                }
            }
            buf = rest;
        }
        self.pending = buf;
        events
    }
}

/// Index of the first device with this id.
pub open spec fn device_index(devices: Seq<HttpDeviceInfo>, id: Seq<char>) -> Option<int>
    decreases devices.len(),
{
    if devices.len() == 0 {
        None
    } else if devices[0].id@ == id {
        Some(0)
    } else {
        match device_index(devices.drop_first(), id) {
            Some(i) => Some(i + 1),
            None => None,
        }
    }
}

/// The name of the first listed device with this id; a bridge selects its
/// device by name.
pub fn device_name_for(devices: &Vec<HttpDeviceInfo>, device_id: &str) -> (r: Option<String>)
    ensures
        match device_index(devices@, device_id@) {
            Some(i) => r matches Some(n) && n@ == devices@[i].name@,
            None => r is None,
        },
{
    let mut i: usize = 0;
    assert(devices@.subrange(0, devices@.len() as int) =~= devices@);
    while i < devices.len()
        invariant
            i <= devices@.len(),
            device_index(devices@, device_id@) == match device_index(devices@.subrange(i as int, devices@.len() as int), device_id@) {
                Some(k) => Some(k + i),
                None => None,
            },
        decreases devices@.len() - i,
    {
        let ghost rest = devices@.subrange(i as int, devices@.len() as int);
        assert(rest[0] == devices@[i as int]);
        assert(rest.drop_first() =~= devices@.subrange(i + 1, devices@.len() as int));
        if crate::text::str_eq(devices[i].id.as_str(), device_id) {
            return Some(devices[i].name.clone());
        }
        i = i + 1;
    }
    None
}

/// `http://{addr}{path}`, an endpoint of a bridge's HTTP API (`path`
/// starts with `/`).
pub fn bridge_endpoint(http_addr: &str, path: &str) -> (r: String)
    ensures
        r@ == "http://"@ + http_addr@ + path@,
{
    let mut c: Vec<char> = Vec::new();
    push_str_chars(&mut c, "http://");
    push_str_chars(&mut c, http_addr);
    push_str_chars(&mut c, path);
    string_from_chars(c.as_slice())
}

/// The body of a play request to a bridge.
#[derive(Debug, Clone)]
pub struct HttpPlayRequest {
    /// Where the bridge streams the file from.
    pub url: String,
    pub ext_hint: Option<String>,
    pub title: Option<String>,
    pub seek_ms: Option<u64>,
}

/// Builds a play request: the file is streamed by track id when the
/// library knows it, else by path, from the public base URL, which must be
/// configured (else `public base url not configured`).
pub fn play_request(
    path: &str,
    track_id: Option<i64>,
    public_base_url: Option<&str>,
    ext_hint: Option<&str>,
    title: Option<&str>,
    seek_ms: Option<u64>,
) -> (r: Result<HttpPlayRequest, String>)
    ensures
        match public_base_url {
            None => r matches Err(e) && e@ == "public base url not configured"@,
            Some(base) => r matches Ok(req) && req.url@ == (match track_id {
                Some(id) => stream_url_id_spec(id, base@),
                None => stream_url_spec(path@, base@),
            }) && crate::tags::opt_string_view(req.ext_hint) == crate::media::opt_str_view(ext_hint)
                && crate::tags::opt_string_view(req.title) == crate::media::opt_str_view(title) && req.seek_ms == seek_ms,
        },
{
    let base = match public_base_url {
        Some(b) => b,
        None => {
            return Err(string_from_chars(chars_of("public base url not configured").as_slice()));
        },
    };
    let url = play_url(path, track_id, base);
    let ext = match ext_hint {
        Some(e) => Some(e.to_string()),
        None => None,
    };
    let t = match title {
        Some(x) => Some(x.to_string()),
        None => None,
    };
    Ok(HttpPlayRequest { url, ext_hint: ext, title: t, seek_ms })
}

/// What a bridge worker sends for a play command: the extension hint
/// unless blank, and the file name as title.
pub fn worker_play_fields(path: &str, ext_hint: &str) -> (r: (Option<String>, Option<String>))
    ensures
        crate::tags::opt_string_view(r.0) == (if crate::text::trim(ext_hint@).len() == 0 {
            None
        } else {
            Some(ext_hint@)
        }),
        crate::tags::opt_string_view(r.1) == crate::paths::file_name_of(path@),
{
    let ext = match crate::tags::ext_hint_option(ext_hint) {
        Some(e) => Some(e.to_string()),
        None => None,
    };
    (ext, crate::paths::file_name(path))
}

} // verus!
