//! Browser receivers: the registry of connected browser sessions, the
//! messages sent to them for playback commands, and the reading of the
//! status they report.

use vstd::prelude::*;
use vstd::utf8::encode_utf8;
use crate::playback::{empty_status, BridgeCommand, BridgeStatus};
use crate::strings::{string_from_chars, utf8_bytes};
use crate::table::StringTable;
use crate::text::{decimal, push_digits, push_str_chars, str_eq};
use crate::transport::{build_stream_url_for, stream_url_spec};

verus! {

/// A connected browser receiver.
#[derive(Debug)]
pub struct BrowserSession {
    pub id: String,
    pub name: String,
    /// Duration of the track it last reported.
    pub last_duration_ms: Option<u64>,
}

/// A session's fields as plain values.
pub open spec fn session_view(s: BrowserSession) -> (Seq<char>, Seq<char>, Option<u64>) {
    (s.id@, s.name@, s.last_duration_ms)
}

/// A copy of a session.
pub fn copy_browser_session(s: &BrowserSession) -> (r: BrowserSession)
    ensures
        session_view(r) == session_view(*s),
{
    BrowserSession { id: s.id.clone(), name: s.name.clone(), last_duration_ms: s.last_duration_ms }
}

/// The id given to the `n`th registered session.
pub open spec fn browser_id(n: u64) -> Seq<char> {
    "browser-"@ + decimal(n as int)
}

/// The registry of connected browser sessions.
pub struct BrowserProviderState {
    sessions: StringTable<BrowserSession>,
    counter: u64,
}

impl BrowserProviderState {
    #[verifier::type_invariant]
    closed spec fn ids_match(self) -> bool {
        forall|k: Seq<char>| self.sessions@.contains_key(k) ==> #[trigger] self.sessions@[k].id@ == k
    }

    /// The sessions by id, as plain values.
    pub closed spec fn sessions_view(&self) -> Map<Seq<char>, (Seq<char>, Seq<char>, Option<u64>)> {
        self.sessions@.map_values(|s: BrowserSession| session_view(s))
    }

    /// The number the next session's id carries.
    pub closed spec fn next_number(&self) -> u64 {
        self.counter
    }

    /// A registry with no session; ids start at one.
    pub fn new() -> (r: Self)
        ensures
            r.sessions_view() == Map::<Seq<char>, (Seq<char>, Seq<char>, Option<u64>)>::empty(),
            r.next_number() == 1,
    {
        let r = BrowserProviderState { sessions: StringTable::new(), counter: 1 };
        assert(r.sessions_view() =~= Map::<Seq<char>, (Seq<char>, Seq<char>, Option<u64>)>::empty());
        r
    }

    /// Registers a session under the next id, `browser-{n}`, and returns
    /// the id; the counter wraps.
    pub fn register_session(&mut self, name: String) -> (r: String)
        ensures
            r@ == browser_id(old(self).next_number()),
            final(self).next_number() == old(self).next_number().wrapping_add(1),
            final(self).sessions_view() == old(self).sessions_view().insert(r@, (r@, name@, None)),
    {
        proof {
            use_type_invariant(&*self);
        }
        let n = self.counter;
        let mut c: Vec<char> = Vec::new();
        push_str_chars(&mut c, "browser-");
        push_digits(&mut c, n);
        let id = string_from_chars(c.as_slice());
        proof {
            assert(id@ =~= browser_id(n));
        }
        self.counter = n.wrapping_add(1);
        let session = BrowserSession { id: id.clone(), name, last_duration_ms: None };
        let ghost sv = session_view(session);
        let ghost before = self.sessions@;
        let mut tbl: StringTable<BrowserSession> = StringTable::new();
        std::mem::swap(&mut tbl, &mut self.sessions);
        tbl.insert(id.clone(), session);
        self.sessions = tbl;
        proof {
            assert(self.sessions_view() =~= before.map_values(|s: BrowserSession| session_view(s)).insert(id@, sv));
        }
        id
    }

    /// Renames a registered session; an unknown id changes nothing.
    pub fn update_name(&mut self, id: &str, name: String)
        ensures
            final(self).next_number() == old(self).next_number(),
            final(self).sessions_view() == if old(self).sessions_view().contains_key(id@) {
                let s = old(self).sessions_view()[id@];
                old(self).sessions_view().insert(id@, (s.0, name@, s.2))
            } else {
                old(self).sessions_view()
            },
    {
        proof {
            use_type_invariant(&*self);
        }
        let ghost before = self.sessions@;
        let updated = match self.sessions.get(id) {
            Some(s) => Some(BrowserSession { id: s.id.clone(), name, last_duration_ms: s.last_duration_ms }),
            None => None,
        };
        match updated {
            Some(u) => {
                let ghost uv = session_view(u);
                let mut tbl: StringTable<BrowserSession> = StringTable::new();
                std::mem::swap(&mut tbl, &mut self.sessions);
                tbl.insert(id.to_string(), u);
                self.sessions = tbl;
                proof {
                    assert(self.sessions_view() =~= before.map_values(|s: BrowserSession| session_view(s)).insert(id@, uv));
                }
            },
            None => {},
        }
    }

    /// Records the duration a session last reported; an unknown id changes
    /// nothing.
    pub fn update_last_duration(&mut self, id: &str, duration_ms: Option<u64>)
        ensures
            final(self).next_number() == old(self).next_number(),
            final(self).sessions_view() == if old(self).sessions_view().contains_key(id@) {
                let s = old(self).sessions_view()[id@];
                old(self).sessions_view().insert(id@, (s.0, s.1, duration_ms))
            } else {
                old(self).sessions_view()
            },
    {
        proof {
            use_type_invariant(&*self);
        }
        let ghost before = self.sessions@;
        let updated = match self.sessions.get(id) {
            Some(s) => Some(BrowserSession { id: s.id.clone(), name: s.name.clone(), last_duration_ms: duration_ms }),
            None => None,
        };
        match updated {
            Some(u) => {
                let ghost uv = session_view(u);
                let mut tbl: StringTable<BrowserSession> = StringTable::new();
                std::mem::swap(&mut tbl, &mut self.sessions);
                tbl.insert(id.to_string(), u);
                self.sessions = tbl;
                proof {
                    assert(self.sessions_view() =~= before.map_values(|s: BrowserSession| session_view(s)).insert(id@, uv));
                }
            },
            None => {},
        }
    }

    /// Removes a session and gives it back, when it was registered.
    pub fn remove_session(&mut self, id: &str) -> (r: Option<BrowserSession>)
        ensures
            final(self).next_number() == old(self).next_number(),
            final(self).sessions_view() == old(self).sessions_view().remove(id@),
            match r {
                Some(s) => old(self).sessions_view().contains_key(id@) && session_view(s) == old(self).sessions_view()[id@],
                None => !old(self).sessions_view().contains_key(id@),
            },
    {
        proof {
            use_type_invariant(&*self);
        }
        let ghost before = self.sessions@;
        let mut tbl: StringTable<BrowserSession> = StringTable::new();
        std::mem::swap(&mut tbl, &mut self.sessions);
        let r = tbl.remove(id);
        self.sessions = tbl;
        proof {
            assert(self.sessions_view() =~= before.map_values(|s: BrowserSession| session_view(s)).remove(id@));
        }
        r
    }

    /// A copy of a registered session.
    pub fn get_session(&self, id: &str) -> (r: Option<BrowserSession>)
        ensures
            match r {
                Some(s) => self.sessions_view().contains_key(id@) && session_view(s) == self.sessions_view()[id@],
                None => !self.sessions_view().contains_key(id@),
            },
    {
        match self.sessions.get(id) {
            Some(s) => Some(copy_browser_session(s)),
            None => None,
        }
    }

    /// The duration a session last reported.
    pub fn get_last_duration(&self, id: &str) -> (r: Option<u64>)
        ensures
            r == if self.sessions_view().contains_key(id@) {
                self.sessions_view()[id@].2
            } else {
                None
            },
    {
        match self.sessions.get(id) {
            Some(s) => s.last_duration_ms,
            None => None,
        }
    }

    /// Copies of all sessions, each once, in no particular order.
    pub fn list_sessions(&self) -> (r: Vec<BrowserSession>)
        ensures
            forall|i: int|
                0 <= i < r@.len() ==> self.sessions_view().contains_key(#[trigger] r@[i].id@) && session_view(r@[i])
                    == self.sessions_view()[r@[i].id@],
            forall|i: int, j: int| 0 <= i < j < r@.len() ==> #[trigger] r@[i].id@ != #[trigger] r@[j].id@,
            forall|k: Seq<char>|
                self.sessions_view().contains_key(k) ==> exists|i: int| 0 <= i < r@.len() && #[trigger] r@[i].id@ == k,
    {
        proof {
            use_type_invariant(self);
        }
        let n = self.sessions.len();
        let mut out: Vec<BrowserSession> = Vec::new();
        let mut i: usize = 0;
        while i < n
            invariant
                n == self.sessions.keys().len(),
                i <= n,
                out@.len() == i,
                forall|j: int| 0 <= j < n ==> self.sessions@.contains_key(#[trigger] self.sessions.keys()[j]),
                forall|k: Seq<char>| self.sessions@.contains_key(k) ==> #[trigger] self.sessions@[k].id@ == k,
                forall|j: int|
                    0 <= j < i ==> out@[j].id@ == #[trigger] self.sessions.keys()[j] && session_view(out@[j])
                        == session_view(self.sessions@[self.sessions.keys()[j]]),
            decreases n - i,
        {
            let (k, s) = self.sessions.entry_at(i);
            let copy = copy_browser_session(s);
            out.push(copy);
            i = i + 1;
        }
        proof {
            assert forall|i: int, j: int| 0 <= i < j < out@.len() implies #[trigger] out@[i].id@ != #[trigger] out@[j].id@ by {
                assert(out@[i].id@ == self.sessions.keys()[i]);
                assert(out@[j].id@ == self.sessions.keys()[j]);
            }
            assert forall|k: Seq<char>| self.sessions_view().contains_key(k) implies exists|i: int| 0 <= i < out@.len() && #[trigger] out@[i].id@ == k by {
                assert(self.sessions@.contains_key(k));
                assert(self.sessions.keys().contains(k));
                let i = choose|i: int| 0 <= i < self.sessions.keys().len() && self.sessions.keys()[i] == k;
                assert(out@[i].id@ == k);
            }
            assert forall|i: int| 0 <= i < out@.len() implies self.sessions_view().contains_key(#[trigger] out@[i].id@) && session_view(out@[i])
                    == self.sessions_view()[out@[i].id@] by {
                assert(out@[i].id@ == self.sessions.keys()[i]);
            }
        }
        out
    }
}

/// A message to a browser receiver.
#[derive(Debug, Clone)]
pub enum BrowserServerMessage {
    Hello { session_id: String },
    Play { url: String, path: String, start_paused: bool, seek_ms: Option<u64> },
    PauseToggle,
    Stop,
    Seek { ms: u64 },
}

/// The message that carries a playback command to a browser receiver; a
/// file is played from its stream URL. `Quit` ends the worker: no message.
pub fn browser_message_for(cmd: &BridgeCommand, public_base_url: &str) -> (r: Option<BrowserServerMessage>)
    ensures
        match *cmd {
            BridgeCommand::Quit => r is None,
            BridgeCommand::PauseToggle => r matches Some(BrowserServerMessage::PauseToggle),
            BridgeCommand::Stop => r matches Some(BrowserServerMessage::Stop),
            BridgeCommand::Seek { ms } => r matches Some(BrowserServerMessage::Seek { ms: m }) && m == ms,
            BridgeCommand::Play { path, seek_ms, start_paused, .. } => r matches Some(
                BrowserServerMessage::Play { url: u, path: p, start_paused: sp, seek_ms: sm },
            ) && u@ == stream_url_spec(path@, public_base_url@) && p@ == path@ && sp == start_paused && sm == seek_ms,
        },
{
    match cmd {
        BridgeCommand::Quit => None,
        BridgeCommand::PauseToggle => Some(BrowserServerMessage::PauseToggle),
        BridgeCommand::Stop => Some(BrowserServerMessage::Stop),
        BridgeCommand::Seek { ms } => Some(BrowserServerMessage::Seek { ms: *ms }),
        BridgeCommand::Play { path, seek_ms, start_paused, .. } => {
            let url = build_stream_url_for(path.as_str(), public_base_url);
            Some(
                BrowserServerMessage::Play {
                    url,
                    path: path.clone(),
                    start_paused: *start_paused,
                    seek_ms: *seek_ms,
                },
            )
        },
    }
}

/// `browser:{session_id}`, the output id of a browser session.
pub open spec fn browser_output_spec(session_id: Seq<char>) -> Seq<char> {
    "browser:"@ + session_id
}

/// The output id of a browser session.
pub fn browser_output_id(session_id: &str) -> (r: String)
    ensures
        r@ == browser_output_spec(session_id@),
{
    let mut c: Vec<char> = Vec::new();
    push_str_chars(&mut c, "browser:");
    push_str_chars(&mut c, session_id);
    string_from_chars(c.as_slice())
}

/// What a status report of a browser receiver leads to.
#[derive(Debug)]
pub enum BrowserStatusAction {
    /// The receiver has no session yet, or is not the active output.
    Ignore,
    /// It reports nothing playing: playback stopped.
    Stopped,
    /// It reports this status.
    Report(BridgeStatus),
}

/// Whether the session's output is the active one.
pub open spec fn browser_active(session_id: Option<&str>, active_output_id: Option<&str>) -> bool {
    session_id matches Some(id) && active_output_id matches Some(a) && a@ == browser_output_spec(id@)
}

fn is_active_browser(session_id: Option<&str>, active_output_id: Option<&str>) -> (r: bool)
    ensures
        r == browser_active(session_id, active_output_id),
{
    match (session_id, active_output_id) {
        (Some(id), Some(a)) => {
            let out = browser_output_id(id);
            str_eq(a, out.as_str())
        },
        _ => false,
    }
}

/// Reads a status report of a browser receiver.
pub fn browser_status_action(
    session_id: Option<&str>,
    active_output_id: Option<&str>,
    paused: bool,
    elapsed_ms: Option<u64>,
    duration_ms: Option<u64>,
    now_playing: Option<String>,
) -> (r: BrowserStatusAction)
    ensures
        !browser_active(session_id, active_output_id) ==> r is Ignore,
        browser_active(session_id, active_output_id) && now_playing is None && elapsed_ms is None && duration_ms is None
            ==> r is Stopped,
        browser_active(session_id, active_output_id) && !(now_playing is None && elapsed_ms is None && duration_ms is None)
            ==> r == BrowserStatusAction::Report(
            BridgeStatus { now_playing, paused, elapsed_ms, duration_ms, ..empty_status() },
        ),
{
    if !is_active_browser(session_id, active_output_id) {
        return BrowserStatusAction::Ignore;
    }
    if now_playing.is_none() && elapsed_ms.is_none() && duration_ms.is_none() {
        return BrowserStatusAction::Stopped;
    }
    let mut status = BridgeStatus::default();
    status.now_playing = now_playing;
    status.paused = paused;
    status.elapsed_ms = elapsed_ms;
    status.duration_ms = duration_ms;
    BrowserStatusAction::Report(status)
}

/// Reads the end of a track reported by a browser receiver: an idle
/// status, when it is the active output.
pub fn browser_ended_action(session_id: Option<&str>, active_output_id: Option<&str>) -> (r: BrowserStatusAction)
    ensures
        !browser_active(session_id, active_output_id) ==> r is Ignore,
        browser_active(session_id, active_output_id) ==> r == BrowserStatusAction::Report(empty_status()),
{
    if !is_active_browser(session_id, active_output_id) {
        return BrowserStatusAction::Ignore;
    }
    BrowserStatusAction::Report(BridgeStatus::default())
}

/// Why a browser's websocket is refused.
#[derive(Debug, Clone, Copy, PartialEq, Eq, Structural)]
pub enum BrowserUrlError {
    /// The scheme is neither `http` nor `https`.
    InvalidScheme,
    /// The host is longer than 255 bytes.
    HostTooLong,
}

/// The base URL a browser session plays from: `{scheme}://{host}`.
pub fn browser_base_url(scheme: &str, host: &str) -> (r: Result<String, BrowserUrlError>)
    ensures
        !(scheme@ == "http"@ || scheme@ == "https"@) ==> r == Err::<String, BrowserUrlError>(BrowserUrlError::InvalidScheme),
        (scheme@ == "http"@ || scheme@ == "https"@) && encode_utf8(host@).len() > 255 ==> r == Err::<String, BrowserUrlError>(BrowserUrlError::HostTooLong),
        (scheme@ == "http"@ || scheme@ == "https"@) && encode_utf8(host@).len() <= 255 ==> (r matches Ok(u) && u@ == scheme@ + "://"@ + host@),
{
    if !(str_eq(scheme, "http") || str_eq(scheme, "https")) {
        return Err(BrowserUrlError::InvalidScheme);
    }
    let bytes = utf8_bytes(host);
    if bytes.len() > 255 {
        return Err(BrowserUrlError::HostTooLong);
    }
    let mut c: Vec<char> = Vec::new();
    push_str_chars(&mut c, scheme);
    push_str_chars(&mut c, "://");
    push_str_chars(&mut c, host);
    Ok(string_from_chars(c.as_slice()))
}

} // verus!
