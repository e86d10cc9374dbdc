//! Registry of local playback sessions: app clients that resolve local
//! stream URLs without taking part in output selection.

use vstd::prelude::*;
use crate::names::{sanitize_segment, segment};
use crate::strings::{chars_of, string_from_chars};
use crate::table::StringTable;
use crate::text::{push_str_chars, str_eq};

verus! {

/// Snapshot of a registered local playback session; times are
/// milliseconds on the caller's clock.
#[derive(Clone, Debug)]
pub struct LocalPlaybackSession {
    /// Session id `local:{kind}:{uuid}`.
    pub session_id: String,
    /// Client kind (`ios`, `browser`, ...).
    pub kind: String,
    pub name: String,
    pub app_version: String,
    pub created_at_ms: u64,
    pub last_seen_ms: u64,
}

/// A registered session with the client id it was registered under.
pub struct LocalSessionEntry {
    pub session: LocalPlaybackSession,
    pub client_id: String,
}

/// Whether a text is a hyphenated lowercase UUID of version 4.
pub open spec fn is_uuid_v4_text(s: Seq<char>) -> bool {
    &&& s.len() == 36
    &&& forall|i: int|
        0 <= i < 36 ==> if i == 8 || i == 13 || i == 18 || i == 23 {
            #[trigger] s[i] == '-'
        } else {
            ('0' <= s[i] <= '9') || ('a' <= s[i] <= 'f')
        }
    &&& s[14] == '4'
}

/// `uuid::Uuid::new_v4().to_string()`: a random UUID of version 4, written
/// hyphenated in lowercase hex. Which UUID comes out is left open.
#[verifier::external_body]
pub(crate) fn random_uuid_text() -> (r: String)
    ensures
        is_uuid_v4_text(r@),
{
    uuid::Uuid::new_v4().to_string()
}

/// The later of a stored last-seen time and the time now: last-seen
/// times never go back, as with the monotonic clock they stand for.
pub open spec fn later(seen: u64, now: u64) -> u64 {
    if seen >= now {
        seen
    } else {
        now
    }
}

/// Id of a new session: `local:{segment of kind}:{uuid}`.
pub open spec fn session_id_spec(kind: Seq<char>, uuid: Seq<char>) -> Seq<char> {
    "local:"@ + segment(kind) + ":"@ + uuid
}

/// The registry, keyed by session id.
pub struct LocalPlaybackStore {
    sessions: StringTable<LocalSessionEntry>,
}

/// The session registered for a client kind and client id, if any.
pub open spec fn registered_for(m: Map<Seq<char>, LocalSessionEntry>, kind: Seq<char>, client_id: Seq<char>) -> Option<Seq<char>> {
    if exists|id: Seq<char>| m.contains_key(id) && #[trigger] m[id].session.kind@ == kind && m[id].client_id@
        == client_id {
        Some(
            choose|id: Seq<char>|
                m.contains_key(id) && #[trigger] m[id].session.kind@ == kind && m[id].client_id@
                    == client_id,
        )
    } else {
        None
    }
}

/// Each client kind and client id has at most one session, and every
/// session is stored under its own id.
pub open spec fn registry_ok(m: Map<Seq<char>, LocalSessionEntry>) -> bool {
    &&& forall|a: Seq<char>, b: Seq<char>|
        m.contains_key(a) && m.contains_key(b) && #[trigger] m[a].session.kind@ == #[trigger] m[b].session.kind@
            && m[a].client_id@ == m[b].client_id@ ==> a == b
    &&& forall|a: Seq<char>| m.contains_key(a) ==> #[trigger] m[a].session.session_id@ == a
}

impl View for LocalPlaybackStore {
    type V = Map<Seq<char>, LocalSessionEntry>;

    closed spec fn view(&self) -> Map<Seq<char>, LocalSessionEntry> {
        self.sessions@
    }
}

impl LocalPlaybackStore {
    #[verifier::type_invariant]
    closed spec fn inv(self) -> bool {
        registry_ok(self.sessions@)
    }

    /// An empty registry.
    pub fn new() -> (r: Self)
        ensures
            r@ == Map::<Seq<char>, LocalSessionEntry>::empty(),
    {
        LocalPlaybackStore { sessions: StringTable::new() }
    }

    /// The registry keeps one session per client, under its own id.
    pub fn well_formed(&self) -> (r: bool)
        ensures
            r,
            registry_ok(self@),
    {
        proof {
            use_type_invariant(self);
        }
        true
    }

    fn find_client(&self, kind: &str, client_id: &str) -> (r: Option<String>)
        ensures
            match r {
                Some(id) => self@.contains_key(id@) && self@[id@].session.kind@ == kind@
                    && self@[id@].client_id@ == client_id@,
                None => registered_for(self@, kind@, client_id@) is None,
            },
    {
        let n = self.sessions.len();
        let mut i: usize = 0;
        while i < n
            invariant
                n == self.sessions.keys().len(),
                i <= n,
                forall|j: int| 0 <= j < self.sessions.keys().len() ==> self.sessions@.contains_key(
                    #[trigger] self.sessions.keys()[j],
                ),
                forall|k: Seq<char>| self.sessions@.contains_key(k) ==> self.sessions.keys().contains(k),
                forall|j: int|
                    0 <= j < i ==> !(#[trigger] self.sessions@[self.sessions.keys()[j]].session.kind@
                        == kind@ && self.sessions@[self.sessions.keys()[j]].client_id@ == client_id@),
            decreases n - i,
        {
            let (id, entry) = self.sessions.entry_at(i);
            if str_eq(entry.session.kind.as_str(), kind) && str_eq(entry.client_id.as_str(), client_id) {
                return Some(id.clone());
            }
            i = i + 1;
        }
        proof {
            if exists|id: Seq<char>| self@.contains_key(id) && #[trigger] self@[id].session.kind@ == kind@
                && self@[id].client_id@ == client_id@ {
                let id = choose|id: Seq<char>|
                    self@.contains_key(id) && #[trigger] self@[id].session.kind@ == kind@
                        && self@[id].client_id@ == client_id@;
                assert(self.sessions.keys().contains(id));
                let j = choose|j: int| 0 <= j < self.sessions.keys().len() && self.sessions.keys()[j] == id;
                assert(self.sessions@[self.sessions.keys()[j]].session.kind@ == kind@);
            }
        }
        None
    }

    /// Registers a client, or refreshes its session when it is already
    /// registered: the existing session keeps its id and creation time and
    /// takes the new name and version, and the time unless it had a later
    /// one (last-seen times never go back); a new session gets the id
    /// `local:{kind}:{uuid}`.
    pub fn register_session_with_id(
        &mut self,
        kind: String,
        name: String,
        client_id: String,
        app_version: String,
        now_ms: u64,
        uuid: &str,
    ) -> (r: String)
        ensures
            match registered_for(old(self)@, kind@, client_id@) {
                Some(id) => r@ == id && final(self)@ == old(self)@.insert(
                    id,
                    LocalSessionEntry {
                        session: LocalPlaybackSession {
                            name,
                            app_version,
                            last_seen_ms: later(old(self)@[id].session.last_seen_ms, now_ms),
                            ..old(self)@[id].session
                        },
                        ..old(self)@[id]
                    },
                ),
                None => r@ == session_id_spec(kind@, uuid@) && final(self)@ == old(self)@.insert(
                    r@,
                    final(self)@[r@],
                ) && final(self)@[r@].session.session_id@ == r@
                    && final(self)@[r@].session.kind == kind && final(self)@[r@].session.name == name
                    && final(self)@[r@].session.app_version == app_version
                    && final(self)@[r@].session.created_at_ms == now_ms
                    && final(self)@[r@].session.last_seen_ms == now_ms
                    && final(self)@[r@].client_id == client_id,
            },
            registered_for(final(self)@, kind@, client_id@) == Some(r@),
    {
        proof {
            use_type_invariant(&*self);
        }
        let r = self.register_client(kind, name, client_id, app_version, now_ms, uuid);
        proof {
            use_type_invariant(&*self);
            let m = self@;
            let k = kind@;
            let c = client_id@;
            assert(m.contains_key(r@) && m[r@].session.kind@ == k && m[r@].client_id@ == c);
            let x = choose|x: Seq<char>| m.contains_key(x) && #[trigger] m[x].session.kind@ == k && m[x].client_id@ == c;
            assert(m[x].session.kind@ == m[r@].session.kind@);
        }
        r
    }

    fn register_client(
        &mut self,
        kind: String,
        name: String,
        client_id: String,
        app_version: String,
        now_ms: u64,
        uuid: &str,
    ) -> (r: String)
        ensures
            match registered_for(old(self)@, kind@, client_id@) {
                Some(id) => r@ == id && final(self)@ == old(self)@.insert(
                    id,
                    LocalSessionEntry {
                        session: LocalPlaybackSession {
                            name,
                            app_version,
                            last_seen_ms: later(old(self)@[id].session.last_seen_ms, now_ms),
                            ..old(self)@[id].session
                        },
                        ..old(self)@[id]
                    },
                ),
                None => r@ == session_id_spec(kind@, uuid@) && final(self)@ == old(self)@.insert(
                    r@,
                    final(self)@[r@],
                ) && final(self)@[r@].session.session_id@ == r@
                    && final(self)@[r@].session.kind == kind && final(self)@[r@].session.name == name
                    && final(self)@[r@].session.app_version == app_version
                    && final(self)@[r@].session.created_at_ms == now_ms
                    && final(self)@[r@].session.last_seen_ms == now_ms
                    && final(self)@[r@].client_id == client_id,
            },
            final(self)@.contains_key(r@),
            final(self)@[r@].session.kind@ == kind@,
            final(self)@[r@].client_id@ == client_id@,
    {
        proof {
            use_type_invariant(&*self);
        }
        match self.find_client(kind.as_str(), client_id.as_str()) {
            Some(id) => {
                proof {
                    let m = self@;
                    assert(m.contains_key(id@) && m[id@].session.kind@ == kind@ && m[id@].client_id@
                        == client_id@);
                    let c = choose|x: Seq<char>|
                        m.contains_key(x) && #[trigger] m[x].session.kind@ == kind@ && m[x].client_id@
                            == client_id@;
                    assert(m[c].session.kind@ == m[id@].session.kind@);
                }
                let mut sessions = StringTable::new();
                std::mem::swap(&mut sessions, &mut self.sessions);
                let old_entry = sessions.remove(id.as_str());
                match old_entry {
                    Some(e) => {
                        let ghost before = e;
                        let seen = if e.session.last_seen_ms >= now_ms {
                            e.session.last_seen_ms
                        } else {
                            now_ms
                        };
                        let entry = LocalSessionEntry {
                            session: LocalPlaybackSession {
                                session_id: e.session.session_id,
                                kind: e.session.kind,
                                name,
                                app_version,
                                created_at_ms: e.session.created_at_ms,
                                last_seen_ms: seen,
                            },
                            client_id: e.client_id,
                        };
                        sessions.insert(id.clone(), entry);
                        proof {
                            assert(sessions@ =~= old(self)@.insert(
                                id@,
                                LocalSessionEntry {
                                    session: LocalPlaybackSession {
                                        name,
                                        app_version,
                                        last_seen_ms: later(before.session.last_seen_ms, now_ms),
                                        ..before.session
                                    },
                                    ..before
                                },
                            ));
                            let m2 = sessions@;
                            assert forall|a: Seq<char>, b: Seq<char>|
                                m2.contains_key(a) && m2.contains_key(b) && #[trigger] m2[a].session.kind@
                                    == #[trigger] m2[b].session.kind@ && m2[a].client_id@ == m2[b].client_id@
                                    implies a == b by {
                                let m = old(self)@;
                                assert(m.contains_key(a) && m.contains_key(b));
                                if a == id@ {
                                    assert(m[a].session.kind@ == m2[a].session.kind@);
                                } else if b == id@ {
                                    assert(m[b].session.kind@ == m2[b].session.kind@);
                                } else {
                                    assert(m[a] == m2[a] && m[b] == m2[b]);
                                }
                            }
                        }
                        self.sessions = sessions;
                    },
                    None => {
                        self.sessions = sessions;
                    },
                }
                id
            },
            None => {
                let segment_text = sanitize_segment(kind.as_str());
                let mut id_chars: Vec<char> = Vec::new();
                push_str_chars(&mut id_chars, "local:");
                push_str_chars(&mut id_chars, segment_text.as_str());
                push_str_chars(&mut id_chars, ":");
                push_str_chars(&mut id_chars, uuid);
                let session_id = string_from_chars(id_chars.as_slice());
                let entry = LocalSessionEntry {
                    session: LocalPlaybackSession {
                        session_id: session_id.clone(),
                        kind,
                        name,
                        app_version,
                        created_at_ms: now_ms,
                        last_seen_ms: now_ms,
                    },
                    client_id,
                };
                let ghost e = entry;
                let mut sessions = StringTable::new();
                std::mem::swap(&mut sessions, &mut self.sessions);
                sessions.insert(session_id.clone(), entry);
                proof {
                    let m = old(self)@;
                    let m2 = sessions@;
                    let sid = session_id@;
                    assert(m2 == m.insert(sid, e));
                    assert forall|a: Seq<char>, b: Seq<char>|
                        m2.contains_key(a) && m2.contains_key(b) && #[trigger] m2[a].session.kind@
                            == #[trigger] m2[b].session.kind@ && m2[a].client_id@ == m2[b].client_id@
                            implies a == b by {
                        if a != sid && b != sid {
                            assert(m[a] == m2[a] && m[b] == m2[b]);
                        } else if a == sid && b != sid {
                            assert(m.contains_key(b) && m[b].session.kind@ == kind@
                                && m[b].client_id@ == client_id@);
                        } else if b == sid && a != sid {
                            assert(m.contains_key(a) && m[a].session.kind@ == kind@
                                && m[a].client_id@ == client_id@);
                        }
                    }
                    assert forall|a: Seq<char>| m2.contains_key(a) implies #[trigger] m2[a].session.session_id@
                        == a by {
                        if a != sid {
                            assert(m[a] == m2[a]);
                        }
                    }
                }
                self.sessions = sessions;
                session_id
            },
        }
    }

    /// Registers a client under a fresh random id, or refreshes its session.
    pub fn register_session(
        &mut self,
        kind: String,
        name: String,
        client_id: String,
        app_version: String,
        now_ms: u64,
    ) -> (r: String)
        ensures
            final(self)@ == old(self)@.insert(r@, final(self)@[r@]),
            forall|id: Seq<char>| old(self)@.contains_key(id) ==> #[trigger] final(self)@.contains_key(id),
            final(self)@.contains_key(r@),
            final(self)@[r@].session.session_id@ == r@,
            final(self)@[r@].session.kind@ == kind@,
            final(self)@[r@].session.name == name,
            final(self)@[r@].session.app_version == app_version,
            final(self)@[r@].client_id@ == client_id@,
            registered_for(final(self)@, kind@, client_id@) == Some(r@),
            registered_for(old(self)@, kind@, client_id@) matches Some(id) ==> r@ == id
                && final(self)@[r@].session.created_at_ms == old(self)@[id].session.created_at_ms
                && final(self)@[r@].session.last_seen_ms == later(old(self)@[id].session.last_seen_ms, now_ms),
            registered_for(old(self)@, kind@, client_id@) is None ==> final(self)@[r@].session.created_at_ms
                == now_ms && final(self)@[r@].session.last_seen_ms == now_ms && exists|u: Seq<char>|
                is_uuid_v4_text(u) && r@ == #[trigger] session_id_spec(kind@, u),
    {
        let uuid = random_uuid_text();
        let r = self.register_session_with_id(kind, name, client_id, app_version, now_ms, uuid.as_str());
        proof {
            use_type_invariant(&*self);
            if registered_for(old(self)@, kind@, client_id@) is None {
                assert(r@ == session_id_spec(kind@, uuid@));
            }
        }
        r
    }

    /// Whether a session id is registered.
    pub fn has_session(&self, session_id: &str) -> (r: bool)
        ensures
            r == self@.contains_key(session_id@),
    {
        self.sessions.contains_key(session_id)
    }

    /// Refreshes the last-seen time of a session to the time given, or keeps
    /// it where it is already later, so that it never goes back; false when
    /// the session is unknown.
    pub fn touch_session(&mut self, session_id: &str, now_ms: u64) -> (r: bool)
        ensures
            r == old(self)@.contains_key(session_id@),
            final(self)@.dom() == old(self)@.dom(),
            r ==> final(self)@ == old(self)@.insert(
                session_id@,
                LocalSessionEntry {
                    session: LocalPlaybackSession { last_seen_ms: later(old(self)@[session_id@].session.last_seen_ms, now_ms), ..old(self)@[session_id@].session },
                    ..old(self)@[session_id@]
                },
            ),
            !r ==> final(self)@ == old(self)@,
    {
        proof {
            use_type_invariant(&*self);
        }
        let mut sessions = StringTable::new();
        std::mem::swap(&mut sessions, &mut self.sessions);
        match sessions.remove(session_id) {
            Some(e) => {
                let ghost before = e;
                let seen = if e.session.last_seen_ms >= now_ms {
                    e.session.last_seen_ms
                } else {
                    now_ms
                };
                let key = e.session.session_id.clone();
                let entry = LocalSessionEntry {
                    session: LocalPlaybackSession {
                        session_id: e.session.session_id,
                        kind: e.session.kind,
                        name: e.session.name,
                        app_version: e.session.app_version,
                        created_at_ms: e.session.created_at_ms,
                        last_seen_ms: seen,
                    },
                    client_id: e.client_id,
                };
                sessions.insert(key, entry);
                proof {
                    let m = old(self)@;
                    let m2 = sessions@;
                    assert(m2 =~= m.insert(
                        session_id@,
                        LocalSessionEntry {
                            session: LocalPlaybackSession { last_seen_ms: later(before.session.last_seen_ms, now_ms), ..before.session },
                            ..before
                        },
                    ));
                    assert forall|a: Seq<char>, b: Seq<char>|
                        m2.contains_key(a) && m2.contains_key(b) && #[trigger] m2[a].session.kind@
                            == #[trigger] m2[b].session.kind@ && m2[a].client_id@ == m2[b].client_id@
                            implies a == b by {
                        assert(m.contains_key(a) && m.contains_key(b));
                        if a == session_id@ {
                            assert(m[a].session.kind@ == m2[a].session.kind@);
                        } else if b == session_id@ {
                            assert(m[b].session.kind@ == m2[b].session.kind@);
                        } else {
                            assert(m[a] == m2[a] && m[b] == m2[b]);
                        }
                    }
                }
                self.sessions = sessions;
                true
            },
            None => {
                self.sessions = sessions;
                false
            },
        }
    }

    /// All registered sessions, each once; the order is left open.
    pub fn list_sessions(&self) -> (r: Vec<LocalPlaybackSession>)
        ensures
            forall|i: int| 0 <= i < r@.len() ==> self@.contains_key(#[trigger] r@[i].session_id@)
                && self@[r@[i].session_id@].session == r@[i],
            forall|id: Seq<char>| self@.contains_key(id) ==> exists|i: int|
                0 <= i < r@.len() && #[trigger] r@[i].session_id@ == id,
            forall|i: int, j: int| 0 <= i < j < r@.len() ==> #[trigger] r@[i].session_id@ != #[trigger] r@[j].session_id@,
    {
        proof {
            use_type_invariant(self);
        }
        let n = self.sessions.len();
        let mut out: Vec<LocalPlaybackSession> = Vec::new();
        let mut i: usize = 0;
        while i < n
            invariant
                n == self.sessions.keys().len(),
                i <= n,
                out@.len() == i,
                registry_ok(self.sessions@),
                forall|j: int| 0 <= j < self.sessions.keys().len() ==> self.sessions@.contains_key(
                    #[trigger] self.sessions.keys()[j],
                ),
                forall|j: int| 0 <= j < i ==> #[trigger] out@[j] == self.sessions@[self.sessions.keys()[j]].session,
            decreases n - i,
        {
            let (_, entry) = self.sessions.entry_at(i);
            out.push(copy_session(&entry.session));
            i = i + 1;
        }
        proof {
            let keys = self.sessions.keys();
            let m = self.sessions@;
            assert forall|j: int| 0 <= j < out@.len() implies m.contains_key(#[trigger] out@[j].session_id@)
                && m[out@[j].session_id@].session == out@[j] by {
                assert(m.contains_key(keys[j]));
                assert(m[keys[j]].session.session_id@ == keys[j]);
            }
            assert forall|id: Seq<char>| m.contains_key(id) implies exists|j: int|
                0 <= j < out@.len() && #[trigger] out@[j].session_id@ == id by {
                assert(keys.contains(id));
                let j = choose|j: int| 0 <= j < keys.len() && keys[j] == id;
                assert(m[keys[j]].session.session_id@ == keys[j]);
                assert(out@[j].session_id@ == id);
            }
            assert forall|a: int, b: int| 0 <= a < b < out@.len() implies #[trigger] out@[a].session_id@
                != #[trigger] out@[b].session_id@ by {
                assert(m[keys[a]].session.session_id@ == keys[a]);
                assert(m[keys[b]].session.session_id@ == keys[b]);
            }
        }
        out
    }
}

/// A copy of a session snapshot.
pub fn copy_session(s: &LocalPlaybackSession) -> (r: LocalPlaybackSession)
    ensures
        r == *s,
{
    LocalPlaybackSession {
        session_id: s.session_id.clone(),
        kind: s.kind.clone(),
        name: s.name.clone(),
        app_version: s.app_version.clone(),
        created_at_ms: s.created_at_ms,
        last_seen_ms: s.last_seen_ms,
    }
}

/// Why a local playback registration is refused (400).
#[derive(Debug, Clone, Copy, PartialEq, Eq, Structural)]
pub enum RegisterError {
    /// A field is blank.
    MissingFields,
    /// The kind has no letter, digit, `_` or `-`.
    InvalidKind,
}

impl RegisterError {
    /// The body of the refusal.
    pub fn message(&self) -> (r: String)
        ensures
            r@ == match *self {
                RegisterError::MissingFields => "kind, name, client_id, and app_version are required"@,
                RegisterError::InvalidKind => "kind contains no valid characters"@,
            },
    {
        let text: &str = match self {
            RegisterError::MissingFields => "kind, name, client_id, and app_version are required",
            RegisterError::InvalidKind => "kind contains no valid characters",
        };
        string_from_chars(chars_of(text).as_slice())
    }
}

/// A character that may stand in a kind.
pub open spec fn kind_char(c: char) -> bool {
    crate::text::is_alnum(c) || c == '_' || c == '-'
}

/// The fields of a registration: kind trimmed and lowercased, the others
/// trimmed. All must be non-blank, and the kind must hold a letter, digit,
/// `_` or `-`.
pub fn validate_register_request(req: &crate::models::LocalPlaybackRegisterRequest) -> (r: Result<(String, String, String, String), RegisterError>)
    ensures
        ({
            let kind = crate::text::lower_seq(crate::text::trim(req.kind@));
            let name = crate::text::trim(req.name@);
            let client = crate::text::trim(req.client_id@);
            let version = crate::text::trim(req.app_version@);
            if kind.len() == 0 || name.len() == 0 || client.len() == 0 || version.len() == 0 {
                r == Err::<(String, String, String, String), RegisterError>(RegisterError::MissingFields)
            } else if !(exists|i: int| 0 <= i < kind.len() && kind_char(#[trigger] kind[i])) {
                r == Err::<(String, String, String, String), RegisterError>(RegisterError::InvalidKind)
            } else {
                r matches Ok((k, n, c, v)) && k@ == kind && n@ == name && c@ == client && v@ == version
            }
        }),
{
    let kind = crate::text::lower_chars(crate::text::trim_chars(chars_of(req.kind.as_str()).as_slice()).as_slice());
    let name = crate::text::trim_chars(chars_of(req.name.as_str()).as_slice());
    let client = crate::text::trim_chars(chars_of(req.client_id.as_str()).as_slice());
    let version = crate::text::trim_chars(chars_of(req.app_version.as_str()).as_slice());
    if kind.len() == 0 || name.len() == 0 || client.len() == 0 || version.len() == 0 {
        return Err(RegisterError::MissingFields);
    }
    let mut found = false;
    let mut i: usize = 0;
    while i < kind.len()
        invariant
            i <= kind@.len(),
            found <==> exists|j: int| 0 <= j < i && kind_char(#[trigger] kind@[j]),
        decreases kind@.len() - i,
    {
        let c = kind[i];
        if crate::text::char_is_alnum(c) || c == '_' || c == '-' {
            found = true;
        }
        i = i + 1;
    }
    if !found {
        return Err(RegisterError::InvalidKind);
    }
    Ok((
        string_from_chars(kind.as_slice()),
        string_from_chars(name.as_slice()),
        string_from_chars(client.as_slice()),
        string_from_chars(version.as_slice()),
    ))
}

/// `/local-playback/{session_id}/play`, where a session resolves tracks.
pub fn local_play_url(session_id: &str) -> (r: String)
    ensures
        r@ == "/local-playback/"@ + session_id@ + "/play"@,
{
    let mut c: Vec<char> = Vec::new();
    push_str_chars(&mut c, "/local-playback/");
    push_str_chars(&mut c, session_id);
    push_str_chars(&mut c, "/play");
    string_from_chars(c.as_slice())
}

/// How long ago a time was, at `now_ms`; zero for a time ahead of it.
pub open spec fn age_spec(now_ms: u64, then_ms: u64) -> u64 {
    if now_ms >= then_ms {
        (now_ms - then_ms) as u64
    } else {
        0
    }
}

/// The listing entry of a session at `now_ms`.
pub fn session_info(s: &LocalPlaybackSession, now_ms: u64) -> (r: crate::models::LocalPlaybackSessionInfo)
    ensures
        r.session_id@ == s.session_id@,
        r.kind@ == s.kind@,
        r.name@ == s.name@,
        r.app_version@ == s.app_version@,
        r.created_age_ms == age_spec(now_ms, s.created_at_ms),
        r.last_seen_age_ms == age_spec(now_ms, s.last_seen_ms),
{
    crate::models::LocalPlaybackSessionInfo {
        session_id: s.session_id.clone(),
        kind: s.kind.clone(),
        name: s.name.clone(),
        app_version: s.app_version.clone(),
        created_age_ms: now_ms.saturating_sub(s.created_at_ms),
        last_seen_age_ms: now_ms.saturating_sub(s.last_seen_ms),
    }
}

} // verus!
