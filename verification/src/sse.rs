//! Server-sent event streams: the framing of an event, keepalive pings,
//! and what each stream does on a tick or a hub event.

use vstd::prelude::*;
use crate::events::{HubEvent, MetadataEvent};
use crate::models::SessionMode;
use crate::strings::{chars_of, string_from_chars};
use crate::text::{push_chars, push_str_chars, str_eq, str_starts_with, trim, trim_start};
use crate::transport::{join_lines, lemma_newline_first, line_step, lossy_text, newline_at, read_lines, strip_line_end};
use vstd::utf8::{
    decode_utf8, encode_scalar, encode_utf8, encode_utf8_decode_utf8, encode_utf8_valid_utf8, has_width_1_encoding,
    has_width_2_encoding, has_width_3_encoding, leading_byte_width_1, leading_byte_width_2, leading_byte_width_3,
    leading_byte_width_4, last_continuation_byte, second_last_continuation_byte, third_last_continuation_byte,
    valid_utf8,
};

verus! {

/// Idle time after which a stream sends a keepalive ping, in milliseconds.
pub const PING_INTERVAL_MS: u64 = 15000;

/// The pieces of a text between `\n` characters, empty ones included.
pub open spec fn split_newlines(s: Seq<char>) -> Seq<Seq<char>>
    decreases s.len(),
{
    if s.len() == 0 {
        seq![Seq::empty()]
    } else {
        let parts = split_newlines(s.drop_last());
        if s.last() == '\n' {
            parts.push(Seq::empty())
        } else {
            parts.update(parts.len() - 1, parts.last().push(s.last()))
        }
    }
}

/// A terminated line without its `\r`.
pub open spec fn strip_cr(p: Seq<char>) -> Seq<char> {
    if p.len() > 0 && p.last() == '\r' {
        p.drop_last()
    } else {
        p
    }
}

/// `str::lines`: the lines of a text, each without its `\n` or `\r\n`; a
/// final line without terminator is kept as it is, and nothing follows a
/// final terminator.
pub open spec fn text_lines(s: Seq<char>) -> Seq<Seq<char>> {
    let parts = split_newlines(s);
    let done = parts.drop_last().map_values(|p: Seq<char>| strip_cr(p));
    if parts.last().len() == 0 {
        done
    } else {
        done.push(parts.last())
    }
}

/// `data: {line}\n` for each line, in order.
pub open spec fn data_lines(lines: Seq<Seq<char>>) -> Seq<char>
    decreases lines.len(),
{
    if lines.len() == 0 {
        Seq::empty()
    } else {
        data_lines(lines.drop_last()) + "data: "@ + lines.last() + seq!['\n']
    }
}

/// An event frame: `event: {event}\n`, a `data:` line for each line of the
/// data, and a blank line.
pub open spec fn frame_spec(event: Seq<char>, data: Seq<char>) -> Seq<char> {
    "event: "@ + event + seq!['\n'] + data_lines(text_lines(data)) + seq!['\n']
}

proof fn lemma_split_newlines_len(s: Seq<char>)
    ensures
        split_newlines(s).len() >= 1,
    decreases s.len(),
{
    if s.len() > 0 {
        lemma_split_newlines_len(s.drop_last());
    }
}

fn push_data_line(out: &mut Vec<char>, line: &[char])
    ensures
        final(out)@ == old(out)@ + "data: "@ + line@ + seq!['\n'],
{
    push_str_chars(out, "data: ");
    push_chars(out, line);
    out.push('\n');
    assert(out@ =~= old(out)@ + "data: "@ + line@ + seq!['\n']);
}

fn strip_cr_chars(v: &[char]) -> (r: Vec<char>)
    ensures
        r@ == strip_cr(v@),
{
    if v.len() > 0 && v[v.len() - 1] == '\r' {
        crate::text::sub_chars(v, 0, v.len() - 1)
    } else {
        crate::text::sub_chars(v, 0, v.len())
    }
}

/// Frames an event with its data.
pub fn sse_event(event: &str, data: &str) -> (r: String)
    ensures
        r@ == frame_spec(event@, data@),
{
    let d = chars_of(data);
    let mut out: Vec<char> = Vec::new();
    push_str_chars(&mut out, "event: ");
    push_str_chars(&mut out, event);
    out.push('\n');
    let ghost head = out@;
    let mut cur: Vec<char> = Vec::new();
    let ghost mut done: Seq<Seq<char>> = Seq::empty();
    let mut i: usize = 0;
    assert(d@.take(0) =~= Seq::<char>::empty());
    assert(done.map_values(|p: Seq<char>| strip_cr(p)) =~= Seq::<Seq<char>>::empty());
    while i < d.len()
        invariant
            i <= d@.len(),
            split_newlines(d@.take(i as int)) == done.push(cur@),
            out@ == head + data_lines(done.map_values(|p: Seq<char>| strip_cr(p))),
        decreases d@.len() - i,
    {
        let ghost t = d@.take(i + 1);
        assert(t.drop_last() =~= d@.take(i as int));
        assert(t.last() == d@[i as int]);
        if d[i] == '\n' {
            let line = strip_cr_chars(cur.as_slice());
            push_data_line(&mut out, line.as_slice());
            proof {
                let m = done.push(cur@).map_values(|p: Seq<char>| strip_cr(p));
                assert(m.drop_last() =~= done.map_values(|p: Seq<char>| strip_cr(p)));
                assert(m.last() == strip_cr(cur@));
                done = done.push(cur@);
            }
            cur = Vec::new();
            proof {
                assert(done.push(cur@) =~= split_newlines(d@.take(i as int)).push(Seq::empty()));
            }
        } else {
            let ghost old_cur = cur@;
            cur.push(d[i]);
            proof {
                let parts = split_newlines(d@.take(i as int));
                assert(parts.last() == old_cur);
                assert(done.push(cur@) =~= parts.update(parts.len() - 1, parts.last().push(d@[i as int])));
            }
        }
        i = i + 1;
    }
    assert(d@.take(d@.len() as int) =~= d@);
    proof {
        let parts = split_newlines(d@);
        assert(parts.drop_last() =~= done);
        assert(parts.last() == cur@);
    }
    if cur.len() > 0 {
        push_data_line(&mut out, cur.as_slice());
        proof {
            let m = done.map_values(|p: Seq<char>| strip_cr(p));
            assert(m.push(cur@).drop_last() =~= m);
        }
    }
    out.push('\n');
    proof {
        reveal_strlit("event: ");
        assert(out@ =~= frame_spec(event@, data@));
    }
    string_from_chars(out.as_slice())
}

/// The keepalive frame.
pub fn ping_frame() -> (r: &'static str)
    ensures
        r@ == ": ping\n\n"@,
{
    ": ping\n\n"
}

/// Whether a keepalive ping is sent: nothing is waiting and the last ping
/// is at least the interval old.
pub fn ping_due(pending_empty: bool, since_ping_ms: u64) -> (r: bool)
    ensures
        r == (pending_empty && since_ping_ms >= PING_INTERVAL_MS),
{
    pending_empty && since_ping_ms >= PING_INTERVAL_MS
}

/// What wakes a stream: its timer, a hub event, a notice that events were
/// missed, or the end of the event channel.
#[derive(Debug, Clone)]
pub enum StreamSignal {
    Tick,
    Hub(HubEvent),
    Lagged,
    Closed,
}

/// What a stream does when woken.
#[derive(Debug, Clone, Copy, PartialEq, Eq, Structural)]
pub enum StreamStep {
    /// The stream ends.
    Close,
    /// Nothing to send.
    Idle,
    /// Read the state again and send it; when `emit_unchanged` is false,
    /// only if it differs from what was last sent.
    Refresh { emit_unchanged: bool },
}

/// The outputs stream: refreshed (and sent even if unchanged) when the
/// outputs change or events were missed.
pub fn outputs_stream_step(signal: &StreamSignal) -> (r: StreamStep)
    ensures
        r == match *signal {
            StreamSignal::Closed => StreamStep::Close,
            StreamSignal::Hub(HubEvent::OutputsChanged) | StreamSignal::Lagged => StreamStep::Refresh { emit_unchanged: true },
            _ => StreamStep::Idle,
        },
{
    match signal {
        StreamSignal::Closed => StreamStep::Close,
        StreamSignal::Hub(HubEvent::OutputsChanged) => StreamStep::Refresh { emit_unchanged: true },
        StreamSignal::Lagged => StreamStep::Refresh { emit_unchanged: true },
        _ => StreamStep::Idle,
    }
}

/// A session's status stream: refreshed on a status or outputs change or
/// missed events, and on each tick when the session plays on a cast
/// output (`periodic`).
pub fn session_status_step(signal: &StreamSignal, periodic: bool) -> (r: StreamStep)
    ensures
        r == match *signal {
            StreamSignal::Closed => StreamStep::Close,
            StreamSignal::Tick => if periodic {
                StreamStep::Refresh { emit_unchanged: false }
            } else {
                StreamStep::Idle
            },
            StreamSignal::Hub(HubEvent::StatusChanged) | StreamSignal::Hub(HubEvent::OutputsChanged)
            | StreamSignal::Lagged => StreamStep::Refresh { emit_unchanged: false },
            _ => StreamStep::Idle,
        },
{
    match signal {
        StreamSignal::Closed => StreamStep::Close,
        StreamSignal::Tick => if periodic {
            StreamStep::Refresh { emit_unchanged: false }
        } else {
            StreamStep::Idle
        },
        StreamSignal::Hub(HubEvent::StatusChanged) => StreamStep::Refresh { emit_unchanged: false },
        StreamSignal::Hub(HubEvent::OutputsChanged) => StreamStep::Refresh { emit_unchanged: false },
        StreamSignal::Lagged => StreamStep::Refresh { emit_unchanged: false },
        _ => StreamStep::Idle,
    }
}

/// A session's queue stream: refreshed on a queue or status change or
/// missed events.
pub fn session_queue_step(signal: &StreamSignal) -> (r: StreamStep)
    ensures
        r == match *signal {
            StreamSignal::Closed => StreamStep::Close,
            StreamSignal::Hub(HubEvent::QueueChanged) | StreamSignal::Hub(HubEvent::StatusChanged)
            | StreamSignal::Lagged => StreamStep::Refresh { emit_unchanged: false },
            _ => StreamStep::Idle,
        },
{
    match signal {
        StreamSignal::Closed => StreamStep::Close,
        StreamSignal::Hub(HubEvent::QueueChanged) => StreamStep::Refresh { emit_unchanged: false },
        StreamSignal::Hub(HubEvent::StatusChanged) => StreamStep::Refresh { emit_unchanged: false },
        StreamSignal::Lagged => StreamStep::Refresh { emit_unchanged: false },
        _ => StreamStep::Idle,
    }
}

/// The albums stream: a change notice (`albums`, `{}`) when the library
/// changes or events were missed.
pub fn albums_stream_step(signal: &StreamSignal) -> (r: StreamStep)
    ensures
        r == match *signal {
            StreamSignal::Closed => StreamStep::Close,
            StreamSignal::Hub(HubEvent::LibraryChanged) | StreamSignal::Lagged => StreamStep::Refresh { emit_unchanged: true },
            _ => StreamStep::Idle,
        },
{
    match signal {
        StreamSignal::Closed => StreamStep::Close,
        StreamSignal::Hub(HubEvent::LibraryChanged) => StreamStep::Refresh { emit_unchanged: true },
        StreamSignal::Lagged => StreamStep::Refresh { emit_unchanged: true },
        _ => StreamStep::Idle,
    }
}

/// The metadata stream: each metadata event is sent; `None` closes the
/// stream, `Some(None)` sends nothing.
pub fn metadata_stream_step(signal: StreamSignal) -> (r: Option<Option<MetadataEvent>>)
    ensures
        match signal {
            StreamSignal::Closed => r is None,
            StreamSignal::Hub(HubEvent::Metadata(e)) => r == Some(Some(e)),
            _ => r == Some(None::<MetadataEvent>),
        },
{
    match signal {
        StreamSignal::Closed => None,
        StreamSignal::Hub(HubEvent::Metadata(e)) => Some(Some(e)),
        _ => Some(None),
    }
}

/// Whether freshly read state is sent: always when unchanged state is to
/// be sent, else when it differs from what was last sent.
pub fn should_send(emit_unchanged: bool, last_sent: &Option<String>, json: &str) -> (r: bool)
    ensures
        r == (emit_unchanged || !(last_sent matches Some(l) && l@ == json@)),
{
    if emit_unchanged {
        return true;
    }
    match last_sent {
        Some(l) => !str_eq(l.as_str(), json),
        None => true,
    }
}

/// Whether a session's status stream refreshes on ticks: when its output
/// is a cast output.
pub fn session_should_periodic_refresh(active_output_id: Option<&str>) -> (r: bool)
    ensures
        r == (active_output_id matches Some(a) && "cast:"@.is_prefix_of(a@)),
{
    match active_output_id {
        Some(a) => str_starts_with(a, "cast:"),
        None => false,
    }
}

/// Whether a session plays locally; `mode` is `None` for an unknown one.
pub fn is_local_session(mode: Option<SessionMode>) -> (r: bool)
    ensures
        r == (mode == Some(SessionMode::Local)),
{
    match mode {
        Some(SessionMode::Local) => true,
        _ => false,
    }
}

/// A text with no `\n` or `\r`.
pub open spec fn no_line_break(s: Seq<char>) -> bool {
    forall|i: int| 0 <= i < s.len() ==> #[trigger] s[i] != '\n' && s[i] != '\r'
}

proof fn lemma_encode_concat(a: Seq<char>, b: Seq<char>)
    ensures
        encode_utf8(a + b) == encode_utf8(a) + encode_utf8(b),
    decreases a.len(),
{
    if a.len() == 0 {
        assert(a + b =~= b);
        assert(encode_utf8(a) =~= Seq::<u8>::empty());
        assert(encode_utf8(a) + encode_utf8(b) =~= encode_utf8(b));
    } else {
        lemma_encode_concat(a.drop_first(), b);
        assert((a + b).drop_first() =~= a.drop_first() + b);
        assert((a + b)[0] == a[0]);
        assert(encode_utf8(a + b) =~= encode_utf8(a) + encode_utf8(b));
    }
}

proof fn lemma_scalar_no_newline(c: char)
    requires
        c != '\n',
    ensures
        forall|i: int| 0 <= i < encode_scalar(c as u32).len() ==> #[trigger] encode_scalar(c as u32)[i] != 10u8,
{
    let s = c as u32;
    vstd::utf8::char_is_scalar(c);
    assert(s != 10);
    if has_width_1_encoding(s) {
        assert(leading_byte_width_1(s) != 10u8) by (bit_vector)
            requires
                s <= 0x7f,
                s != 10,
        ;
    } else if has_width_2_encoding(s) {
        assert(leading_byte_width_2(s) != 10u8) by (bit_vector);
        assert(last_continuation_byte(s) != 10u8) by (bit_vector);
    } else if has_width_3_encoding(s) {
        assert(leading_byte_width_3(s) != 10u8) by (bit_vector);
        assert(second_last_continuation_byte(s) != 10u8) by (bit_vector);
        assert(last_continuation_byte(s) != 10u8) by (bit_vector);
    } else {
        assert(leading_byte_width_4(s) != 10u8) by (bit_vector);
        assert(third_last_continuation_byte(s) != 10u8) by (bit_vector);
        assert(second_last_continuation_byte(s) != 10u8) by (bit_vector);
        assert(last_continuation_byte(s) != 10u8) by (bit_vector);
    }
}

proof fn lemma_encode_no_newline(line: Seq<char>)
    requires
        forall|i: int| 0 <= i < line.len() ==> #[trigger] line[i] != '\n',
    ensures
        forall|i: int| 0 <= i < encode_utf8(line).len() ==> #[trigger] encode_utf8(line)[i] != 10u8,
    decreases line.len(),
{
    if line.len() > 0 {
        let t = line.drop_first();
        assert forall|i: int| 0 <= i < t.len() implies t[i] != '\n' by {
            assert(t[i] == line[i + 1]);
        }
        lemma_encode_no_newline(t);
        lemma_scalar_no_newline(line[0]);
        let h = encode_scalar(line[0] as u32);
        assert forall|i: int| 0 <= i < encode_utf8(line).len() implies encode_utf8(line)[i] != 10u8 by {
            if i < h.len() {
                assert(encode_utf8(line)[i] == h[i]);
            } else {
                assert(encode_utf8(line)[i] == encode_utf8(t)[i - h.len()]);
            }
        }
    }
}

proof fn lemma_encode_newline()
    ensures
        encode_utf8(seq!['\n']) == seq![10u8],
{
    let s = '\n' as u32;
    assert(s == 10);
    assert(leading_byte_width_1(s) == 10u8) by (bit_vector)
        requires
            s == 10,
    ;
    let c = seq!['\n'];
    assert(c.len() == 1 && c[0] == '\n');
    assert(c.drop_first() =~= Seq::<char>::empty());
    assert(encode_utf8(c.drop_first()) =~= Seq::<u8>::empty());
    assert(has_width_1_encoding(s));
    assert(encode_scalar(s) =~= seq![10u8]);
    assert(encode_utf8(c) == encode_scalar(c[0] as u32) + encode_utf8(c.drop_first()));
    assert(encode_utf8(c) =~= seq![10u8]);
}

/// Reading one line: its bytes and a newline, then the rest.
proof fn lemma_read_line(event: Seq<char>, data: Seq<Seq<char>>, line: Seq<char>, rest: Seq<u8>)
    requires
        no_line_break(line),
    ensures
        read_lines(event, data, encode_utf8(line + seq!['\n']) + rest) == ({
            let (e2, d2, out) = line_step(event, data, line);
            let (e3, d3, r3, evs) = read_lines(e2, d2, rest);
            (
                e3,
                d3,
                r3,
                match out {
                    Some(x) => seq![x] + evs,
                    None => evs,
                },
            )
        }),
{
    let l = line + seq!['\n'];
    lemma_encode_concat(line, seq!['\n']);
    lemma_encode_newline();
    assert forall|i: int| 0 <= i < line.len() implies line[i] != '\n' by {}
    lemma_encode_no_newline(line);
    let el = encode_utf8(line);
    let buf = encode_utf8(l) + rest;
    let p = el.len() as int;
    assert(buf[p] == 10u8);
    assert forall|j: int| 0 <= j < p implies #[trigger] buf[j] != 10u8 by {
        assert(buf[j] == el[j]);
    }
    lemma_newline_first(buf, p);
    assert(newline_at(buf) == Some(p));
    assert(buf.take(p + 1) =~= encode_utf8(l));
    assert(buf.skip(p + 1) =~= rest);
    encode_utf8_valid_utf8(l);
    encode_utf8_decode_utf8(l);
    assert(lossy_text(buf.take(p + 1)) == l);
    assert(l.drop_last() =~= line);
    assert(strip_line_end(l) == strip_line_end(line));
    if line.len() > 0 {
        assert(line.last() == line[line.len() - 1]);
    }
    assert(strip_line_end(line) == line);
}

/// The `data:` lines, first one first.
proof fn lemma_data_lines_front(lines: Seq<Seq<char>>)
    requires
        lines.len() > 0,
    ensures
        data_lines(lines) == "data: "@ + lines[0] + seq!['\n'] + data_lines(lines.drop_first()),
    decreases lines.len(),
{
    if lines.len() == 1 {
        assert(lines.drop_last() =~= Seq::<Seq<char>>::empty());
        assert(lines.drop_first() =~= Seq::<Seq<char>>::empty());
        assert(data_lines(lines) =~= "data: "@ + lines[0] + seq!['\n'] + data_lines(lines.drop_first()));
    } else {
        let d = lines.drop_last();
        lemma_data_lines_front(d);
        assert(d[0] == lines[0]);
        assert(d.drop_first() =~= lines.drop_first().drop_last());
        assert(lines.drop_first().last() == lines.last());
        assert(data_lines(lines.drop_first()) == data_lines(d.drop_first()) + "data: "@ + lines.last() + seq!['\n']);
        assert(data_lines(lines) =~= "data: "@ + lines[0] + seq!['\n'] + data_lines(lines.drop_first()));
    }
}

/// Lines without leading whitespace.
pub open spec fn trimmed_lines(lines: Seq<Seq<char>>) -> Seq<Seq<char>> {
    lines.map_values(|l: Seq<char>| trim_start(l))
}

proof fn lemma_trim_start_space(s: Seq<char>)
    ensures
        trim_start(seq![' '] + s) == trim_start(s),
{
    let t = seq![' '] + s;
    assert(t.drop_first() =~= s);
    assert(crate::text::is_ws(t[0]));
}

/// Reading the `data:` lines of a frame and its closing blank line.
proof fn lemma_read_data(event: Seq<char>, data: Seq<Seq<char>>, lines: Seq<Seq<char>>)
    requires
        forall|i: int| 0 <= i < lines.len() ==> no_line_break(#[trigger] lines[i]),
    ensures
        read_lines(event, data, encode_utf8(data_lines(lines) + seq!['\n'])) == (
            Seq::<char>::empty(),
            Seq::<Seq<char>>::empty(),
            Seq::<u8>::empty(),
            if data.len() + lines.len() > 0 {
                seq![(event, join_lines(data + trimmed_lines(lines)))]
            } else {
                Seq::empty()
            },
        ),
    decreases lines.len(),
{
    reveal_strlit("event:");
    reveal_strlit("data:");
    reveal_strlit("data: ");
    if lines.len() == 0 {
        assert(data_lines(lines) + seq!['\n'] =~= Seq::<char>::empty() + seq!['\n']);
        lemma_read_line(event, data, Seq::empty(), Seq::empty());
        assert(encode_utf8(Seq::<char>::empty() + seq!['\n']) + Seq::<u8>::empty() =~= encode_utf8(
            data_lines(lines) + seq!['\n'],
        ));
        assert(newline_at(Seq::<u8>::empty()) is None);
        assert(trimmed_lines(lines) =~= Seq::<Seq<char>>::empty());
        assert(data + trimmed_lines(lines) =~= data);
    } else {
        let l0 = lines[0];
        let tail = lines.drop_first();
        let line = "data: "@ + l0;
        lemma_data_lines_front(lines);
        assert(no_line_break(l0));
        assert(no_line_break(line)) by {
            assert forall|i: int| 0 <= i < line.len() implies line[i] != '\n' && line[i] != '\r' by {
                if i >= 6 {
                    assert(line[i] == l0[i - 6]);
                }
            }
        }
        let whole = data_lines(lines) + seq!['\n'];
        let rest_chars = data_lines(tail) + seq!['\n'];
        assert(whole =~= (line + seq!['\n']) + rest_chars);
        lemma_encode_concat(line + seq!['\n'], rest_chars);
        lemma_read_line(event, data, line, encode_utf8(rest_chars));
        assert(line.len() > 0);
        assert(!"event:"@.is_prefix_of(line)) by {
            assert(line[0] == 'd');
            assert("event:"@[0] == 'e');
        }
        assert("data:"@.is_prefix_of(line)) by {
            assert(line.take(5) =~= "data:"@);
        }
        assert(line.skip(5) =~= seq![' '] + l0);
        lemma_trim_start_space(l0);
        let data2 = data.push(trim_start(l0));
        assert(line_step(event, data, line) == (event, data2, None::<(Seq<char>, Seq<char>)>));
        assert forall|i: int| 0 <= i < tail.len() implies no_line_break(#[trigger] tail[i]) by {
            assert(tail[i] == lines[i + 1]);
        }
        lemma_read_data(event, data2, tail);
        assert(data2 + trimmed_lines(tail) =~= data + trimmed_lines(lines));
    }
}

proof fn lemma_split_newlines_plain(s: Seq<char>)
    requires
        forall|i: int| 0 <= i < s.len() ==> #[trigger] s[i] != '\r',
    ensures
        split_newlines(s).len() >= 1,
        forall|i: int| 0 <= i < split_newlines(s).len() ==> no_line_break(#[trigger] split_newlines(s)[i]),
    decreases s.len(),
{
    if s.len() > 0 {
        let q = s.drop_last();
        assert forall|i: int| 0 <= i < q.len() implies #[trigger] q[i] != '\r' by {
            assert(q[i] == s[i]);
        }
        lemma_split_newlines_plain(q);
        let parts = split_newlines(q);
        if s.last() == '\n' {
            assert forall|i: int| 0 <= i < split_newlines(s).len() implies no_line_break(#[trigger] split_newlines(s)[i]) by {
                if i < parts.len() {
                    assert(split_newlines(s)[i] == parts[i]);
                } else {
                    assert(split_newlines(s)[i] =~= Seq::<char>::empty());
                }
            }
        } else {
            let last = parts.last().push(s.last());
            assert(s.last() != '\r') by {
                assert(s[s.len() - 1] != '\r');
            }
            assert(no_line_break(parts[parts.len() - 1]));
            assert(no_line_break(last)) by {
                assert forall|k: int| 0 <= k < last.len() implies #[trigger] last[k] != '\n' && last[k] != '\r' by {
                    if k < parts.last().len() {
                        assert(last[k] == parts.last()[k]);
                    }
                }
            }
            assert forall|i: int| 0 <= i < split_newlines(s).len() implies no_line_break(#[trigger] split_newlines(s)[i]) by {
                if i < parts.len() - 1 {
                    assert(split_newlines(s)[i] == parts[i]);
                } else {
                    assert(split_newlines(s)[i] == last);
                }
            }
        }
    }
}

/// The lines of a text without `\r` hold no line break.
proof fn lemma_text_lines_plain(s: Seq<char>)
    requires
        forall|i: int| 0 <= i < s.len() ==> s[i] != '\r',
    ensures
        forall|i: int| 0 <= i < text_lines(s).len() ==> no_line_break(#[trigger] text_lines(s)[i]),
{
    lemma_split_newlines_plain(s);
    let parts = split_newlines(s);
    let done = parts.drop_last().map_values(|p: Seq<char>| strip_cr(p));
    assert forall|i: int| 0 <= i < done.len() implies no_line_break(#[trigger] done[i]) by {
        let p = parts[i];
        assert(no_line_break(p));
        assert(done[i] == strip_cr(p));
        if p.len() > 0 && p.last() == '\r' {
            assert(p[p.len() - 1] == '\r');
        }
        assert(strip_cr(p) == p);
    }
    if parts.last().len() != 0 {
        assert(no_line_break(parts[parts.len() - 1]));
        assert forall|i: int| 0 <= i < done.push(parts.last()).len() implies no_line_break(#[trigger] done.push(parts.last())[i]) by {
            if i < done.len() {
                assert(done.push(parts.last())[i] == done[i]);
            }
        }
    }
}

/// An event framed for a stream is read back by a stream reader: a reader
/// at the start of a stream, fed the frame's UTF-8 bytes, yields one event
/// (the name trimmed, the data lines without leading whitespace joined by
/// newlines) and keeps nothing.
pub proof fn law_framed_event_reads_back(event: Seq<char>, data: Seq<char>)
    requires
        no_line_break(event),
        forall|i: int| 0 <= i < data.len() ==> data[i] != '\r',
        text_lines(data).len() > 0,
    ensures
        read_lines(Seq::empty(), Seq::empty(), encode_utf8(frame_spec(event, data))) == (
            Seq::<char>::empty(),
            Seq::<Seq<char>>::empty(),
            Seq::<u8>::empty(),
            seq![(trim(event), join_lines(trimmed_lines(text_lines(data))))],
        ),
{
    reveal_strlit("event:");
    reveal_strlit("event: ");
    let lines = text_lines(data);
    lemma_text_lines_plain(data);
    let first = "event: "@ + event;
    assert(no_line_break(first)) by {
        assert forall|i: int| 0 <= i < first.len() implies first[i] != '\n' && first[i] != '\r' by {
            if i >= 7 {
                assert(first[i] == event[i - 7]);
            }
        }
    }
    let rest_chars = data_lines(lines) + seq!['\n'];
    assert(frame_spec(event, data) =~= (first + seq!['\n']) + rest_chars);
    lemma_encode_concat(first + seq!['\n'], rest_chars);
    lemma_read_line(Seq::empty(), Seq::empty(), first, encode_utf8(rest_chars));
    assert("event:"@.is_prefix_of(first)) by {
        assert(first.take(6) =~= "event:"@);
    }
    assert(first.skip(6) =~= seq![' '] + event);
    lemma_trim_start_space(event);
    assert(trim(seq![' '] + event) == trim(event));
    assert(line_step(Seq::empty(), Seq::empty(), first) == (trim(event), Seq::<Seq<char>>::empty(), None::<(Seq<char>, Seq<char>)>));
    lemma_read_data(trim(event), Seq::empty(), lines);
    assert(Seq::<Seq<char>>::empty() + trimmed_lines(lines) =~= trimmed_lines(lines));
}

} // verus!
