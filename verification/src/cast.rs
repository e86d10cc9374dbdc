//! Cast receiver control: the decisions of a worker that drives the Default
//! Media Receiver of one cast device. The worker's loop hands each command,
//! timer tick and receiver message to a [`CastWorker`], sends the requests
//! it returns and applies the effects it reports.

use vstd::prelude::*;
use crate::media::content_type_for;
use crate::media::content_type_for_ext;
use crate::playback::{BridgeCommand, BridgeStatus, PlaybackEndReason, empty_status};
use crate::strings::chars_of;
use crate::tags::opt_string_view;
use crate::text::{chars_eq_str, lower_chars, lower_seq, push_str_chars};
use crate::paths::{extension, extension_of};
use crate::strings::string_from_chars;
use crate::media::opt_str_view as opt_view;

verus! {

/// Application id of the Default Media Receiver.
pub const DMR_APP_ID: &'static str = "CC1AD845";

/// Interval between heartbeat pings, in milliseconds.
pub const PING_INTERVAL_MS: u64 = 5000;

/// Interval between media status polls, in milliseconds.
pub const STATUS_POLL_INTERVAL_MS: u64 = 1000;

/// Cast device found on the network.
#[derive(Debug, Clone)]
pub struct CastDeviceDescriptor {
    pub id: String,
    pub name: String,
    pub host: String,
    pub port: u16,
}

/// Channel a request travels on.
#[derive(Debug, Clone, Copy, PartialEq, Eq, Structural)]
pub enum CastNamespace {
    Connection,
    Heartbeat,
    Receiver,
    Media,
}

/// Who a request is sent to.
#[derive(Debug, Clone)]
pub enum CastTarget {
    /// The device itself (`receiver-0`).
    Platform,
    /// A transport or sender id.
    Peer(String),
}

/// Media control without arguments.
#[derive(Debug, Clone, Copy, PartialEq, Eq, Structural)]
pub enum MediaControl {
    Play,
    Pause,
    Stop,
}

/// A media load.
#[derive(Debug, Clone)]
pub struct LoadRequest {
    pub request_id: i64,
    pub session_id: String,
    /// Stream URL of the file.
    pub url: String,
    pub content_type: &'static str,
    /// Local path, passed along as custom data.
    pub path: String,
    pub title: Option<String>,
    pub artist: Option<String>,
    pub album: Option<String>,
    /// Start playing at once (not paused).
    pub autoplay: bool,
    /// Start position, when seeking.
    pub position_ms: Option<u64>,
}

/// A request of the cast protocol.
#[derive(Debug, Clone)]
pub enum CastRequest {
    Connect,
    Ping,
    Pong,
    /// Launch the Default Media Receiver.
    Launch { request_id: i64 },
    /// Ask the device for its receiver status.
    ReceiverStatus { request_id: i64 },
    /// Ask the receiver for its media status.
    MediaStatus { request_id: i64 },
    Control { kind: MediaControl, request_id: i64, media_session_id: i64 },
    Seek { request_id: i64, media_session_id: i64, position_ms: u64 },
    Load(LoadRequest),
}

/// A request with its channel and target.
#[derive(Debug, Clone)]
pub struct CastOutgoing {
    pub target: CastTarget,
    pub namespace: CastNamespace,
    pub request: CastRequest,
}

/// The receiver application serving this worker.
#[derive(Debug, Clone)]
pub struct CastSession {
    pub transport_id: String,
    pub session_id: String,
    pub media_session_id: Option<i64>,
}

/// A play command waiting for the receiver to be ready.
#[derive(Debug, Clone)]
pub struct PendingPlay {
    pub path: String,
    pub ext_hint: String,
    pub seek_ms: Option<u64>,
    pub start_paused: bool,
}

/// An application listed in a receiver status, as read from the message.
#[derive(Debug, Clone)]
pub struct ReceiverApp {
    pub app_id: Option<String>,
    pub transport_id: Option<String>,
    pub session_id: Option<String>,
}

/// The first entry of a media status, as read from the message, with
/// times already in milliseconds.
#[derive(Debug, Clone)]
pub struct MediaStatusInfo {
    pub media_session_id: Option<i64>,
    pub player_state: Option<String>,
    pub current_time_ms: Option<u64>,
    pub duration_ms: Option<u64>,
    pub idle_reason: Option<String>,
}

/// Library details sent along with a load.
#[derive(Debug, Clone)]
pub struct TrackDetails {
    pub title: Option<String>,
    pub artist: Option<String>,
    pub album: Option<String>,
}

/// State of a cast worker between two events.
pub struct CastWorker {
    pub session: Option<CastSession>,
    pub pending_play: Option<PendingPlay>,
    /// File being played, as far as this worker knows.
    pub current_path: Option<String>,
    /// Id of the next request.
    pub request_id: i64,
    /// Duration of the previous status report.
    pub last_duration_ms: Option<u64>,
    /// A session auto-advance was dispatched and is not done yet.
    pub session_auto_advance_in_flight: bool,
}

/// What a command asks of the worker's loop besides the requests.
pub struct CommandOutcome {
    pub requests: Vec<CastOutgoing>,
    /// End the loop.
    pub quit: bool,
    /// Tell the status store that pause was toggled.
    pub pause_toggled: bool,
    /// Tell the status store that a seek is in flight.
    pub seek_in_flight: bool,
}

/// The id after `id`, saturating at the largest value.
pub open spec fn next_id(id: i64) -> i64 {
    if id == i64::MAX {
        id
    } else {
        (id + 1) as i64
    }
}

/// The media session id of the current session, when there is one.
pub open spec fn media_session_of(session: Option<CastSession>) -> Option<i64> {
    match session {
        Some(s) => s.media_session_id,
        None => None,
    }
}

/// The request sent for a media command on the current session (none when
/// the receiver has no media session yet).
pub open spec fn media_request_spec(worker: CastWorker, request: CastRequest) -> Seq<CastOutgoing> {
    match worker.session {
        Some(s) => if s.media_session_id is Some {
            seq![
                CastOutgoing {
                    target: CastTarget::Peer(s.transport_id),
                    namespace: CastNamespace::Media,
                    request,
                },
            ]
        } else {
            Seq::empty()
        },
        None => Seq::empty(),
    }
}

/// Whether a media command is sent: the receiver has a media session.
pub open spec fn sends_media(worker: CastWorker) -> bool {
    media_session_of(worker.session) is Some
}

/// Requests that launch the receiver application when no session exists.
pub open spec fn launch_spec(worker: CastWorker) -> Seq<CastOutgoing> {
    if worker.session is Some {
        Seq::empty()
    } else {
        seq![
            CastOutgoing {
                target: CastTarget::Platform,
                namespace: CastNamespace::Receiver,
                request: CastRequest::Launch { request_id: worker.request_id },
            },
            CastOutgoing {
                target: CastTarget::Platform,
                namespace: CastNamespace::Receiver,
                request: CastRequest::ReceiverStatus { request_id: next_id(worker.request_id) },
            },
        ]
    }
}

/// The transport and session of the Default Media Receiver among the
/// listed applications: the first one with its id; none when there is
/// none, or when that one lacks a transport or session id.
pub open spec fn dmr_app_spec(apps: Seq<ReceiverApp>) -> Option<(String, String)>
    decreases apps.len(),
{
    if apps.len() == 0 {
        None
    } else {
        let a = apps[0];
        if opt_string_view(a.app_id) == Some(DMR_APP_ID@) {
            match (a.transport_id, a.session_id) {
                (Some(t), Some(s)) => Some((t, s)),
                _ => None,
            }
        } else {
            dmr_app_spec(apps.drop_first())
        }
    }
}

/// Whether the player reports this state.
pub open spec fn state_is(player_state: Option<String>, name: Seq<char>) -> bool {
    opt_string_view(player_state) == Some(name)
}

/// Why playback ended, from the idle reason of a media status.
pub open spec fn end_reason_spec(idle_reason: Option<Seq<char>>) -> Option<PlaybackEndReason> {
    match idle_reason {
        Some(r) => if r == "FINISHED"@ {
            Some(PlaybackEndReason::Eof)
        } else if r == "CANCELLED"@ {
            Some(PlaybackEndReason::Stopped)
        } else if r == "ERROR"@ {
            Some(PlaybackEndReason::Error)
        } else if r == "STOPPED"@ {
            Some(PlaybackEndReason::Stopped)
        } else {
            None
        },
        None => None,
    }
}

/// The player went idle for a reason: the current file is done.
pub open spec fn clears_playback(info: MediaStatusInfo) -> bool {
    state_is(info.player_state, "IDLE"@) && info.idle_reason is Some
}

/// The renderer status a media status stands for: the worker's current
/// file (dropped when playback cleared), paused when the player says so,
/// the times unless playback cleared, the device name and the end reason.
pub open spec fn remote_status_spec(info: MediaStatusInfo, current_path: Option<String>, device_name: String) -> BridgeStatus {
    let cleared = clears_playback(info);
    BridgeStatus {
        now_playing: if cleared {
            None
        } else {
            current_path
        },
        paused: state_is(info.player_state, "PAUSED"@),
        elapsed_ms: if cleared {
            None
        } else {
            info.current_time_ms
        },
        duration_ms: if cleared {
            None
        } else {
            info.duration_ms
        },
        device: Some(device_name),
        end_reason: end_reason_spec(opt_string_view(info.idle_reason)),
        ..empty_status()
    }
}

/// Whether a session bound to the output should move to its next track:
/// the file finished, or the player went idle without a reason while a file
/// was playing.
pub open spec fn wants_session_advance_spec(info: MediaStatusInfo, had_current_path: bool) -> bool {
    let reason = end_reason_spec(opt_string_view(info.idle_reason));
    reason == Some(PlaybackEndReason::Eof) || (state_is(info.player_state, "IDLE"@) && reason is None
        && had_current_path)
}

/// What a media status asks of the worker's loop.
pub struct MediaStatusOutcome {
    /// Status to record for the output.
    pub remote: BridgeStatus,
    /// Look up the next track of the bound session and play it.
    pub session_advance: bool,
    /// Feed the status to the playback status store.
    pub report_status: bool,
    /// Let the queue advance on its own (no session is bound).
    pub queue_advance: bool,
}

impl CastWorker {
    /// A worker with no receiver session yet; request ids start at 1.
    pub fn new() -> (r: Self)
        ensures
            r.session is None,
            r.pending_play is None,
            r.current_path is None,
            r.request_id == 1,
            r.last_duration_ms is None,
            !r.session_auto_advance_in_flight,
    {
        CastWorker {
            session: None,
            pending_play: None,
            current_path: None,
            request_id: 1,
            last_duration_ms: None,
            session_auto_advance_in_flight: false,
        }
    }

    /// The request that opens the connection to the device.
    pub fn connect_request() -> (r: CastOutgoing)
        ensures
            r.target is Platform,
            r.namespace == CastNamespace::Connection,
            r.request is Connect,
    {
        CastOutgoing {
            target: CastTarget::Platform,
            namespace: CastNamespace::Connection,
            request: CastRequest::Connect,
        }
    }

    /// Hands out the next request id and advances it, saturating.
    pub fn next_request_id(&mut self) -> (r: i64)
        ensures
            r == old(self).request_id,
            final(self).request_id == next_id(old(self).request_id),
            final(self).session == old(self).session,
            final(self).pending_play == old(self).pending_play,
            final(self).current_path == old(self).current_path,
            final(self).last_duration_ms == old(self).last_duration_ms,
            final(self).session_auto_advance_in_flight == old(self).session_auto_advance_in_flight,
    {
        let current = self.request_id;
        if self.request_id < i64::MAX {
            self.request_id = self.request_id + 1;
        }
        current
    }

    fn media_request(&mut self, out: &mut Vec<CastOutgoing>, request: CastRequest)
        requires
            sends_media(*old(self)),
        ensures
            final(out)@ == old(out)@ + media_request_spec(*old(self), request),
            *final(self) == *old(self),
    {
        match &self.session {
            Some(s) => {
                out.push(
                    CastOutgoing {
                        target: CastTarget::Peer(s.transport_id.clone()),
                        namespace: CastNamespace::Media,
                        request,
                    },
                );
            },
            None => {},
        }
    }

    /// Launches the receiver application unless a session exists.
    fn ensure_session(&mut self, out: &mut Vec<CastOutgoing>)
        ensures
            final(out)@ == old(out)@ + launch_spec(*old(self)),
            final(self).request_id == if old(self).session is Some {
                old(self).request_id
            } else {
                next_id(next_id(old(self).request_id))
            },
            final(self).session == old(self).session,
            final(self).pending_play == old(self).pending_play,
            final(self).current_path == old(self).current_path,
            final(self).last_duration_ms == old(self).last_duration_ms,
            final(self).session_auto_advance_in_flight == old(self).session_auto_advance_in_flight,
    {
        if self.session.is_some() {
            return;
        }
        let ghost before = out@;
        let launch = self.next_request_id();
        out.push(
            CastOutgoing {
                target: CastTarget::Platform,
                namespace: CastNamespace::Receiver,
                request: CastRequest::Launch { request_id: launch },
            },
        );
        let status = self.next_request_id();
        out.push(
            CastOutgoing {
                target: CastTarget::Platform,
                namespace: CastNamespace::Receiver,
                request: CastRequest::ReceiverStatus { request_id: status },
            },
        );
        assert(out@ =~= before + launch_spec(*old(self)));
    }

    /// Handles a command; `paused` is whether playback is paused now.
    /// Play remembers the file and launches the receiver if needed; the
    /// media commands go to the receiver's media session, if it has one;
    /// Stop forgets the current file.
    pub fn on_command(&mut self, cmd: BridgeCommand, paused: bool) -> (r: CommandOutcome)
        ensures
            final(self).last_duration_ms == old(self).last_duration_ms,
            final(self).session_auto_advance_in_flight == old(self).session_auto_advance_in_flight,
            final(self).session == old(self).session,
            match cmd {
                BridgeCommand::Quit => r.quit && r.requests@.len() == 0 && !r.pause_toggled
                    && !r.seek_in_flight && *final(self) == *old(self),
                BridgeCommand::PauseToggle => !r.quit && !r.seek_in_flight && r.pause_toggled
                    == old(self).session is Some && r.requests@ == media_request_spec(
                    *old(self),
                    CastRequest::Control {
                        kind: if paused {
                            MediaControl::Play
                        } else {
                            MediaControl::Pause
                        },
                        request_id: old(self).request_id,
                        media_session_id: media_session_of(old(self).session)->0,
                    },
                ) && final(self).request_id == (if sends_media(*old(self)) {
                    next_id(old(self).request_id)
                } else {
                    old(self).request_id
                }) && final(self).current_path == old(self).current_path
                    && final(self).pending_play == old(self).pending_play,
                BridgeCommand::Stop => !r.quit && !r.pause_toggled && !r.seek_in_flight
                    && r.requests@ == media_request_spec(
                    *old(self),
                    CastRequest::Control {
                        kind: MediaControl::Stop,
                        request_id: old(self).request_id,
                        media_session_id: media_session_of(old(self).session)->0,
                    },
                ) && final(self).request_id == (if sends_media(*old(self)) {
                    next_id(old(self).request_id)
                } else {
                    old(self).request_id
                }) && final(self).current_path is None && final(self).pending_play
                    == old(self).pending_play,
                BridgeCommand::Seek { ms } => !r.quit && !r.pause_toggled && r.seek_in_flight
                    == sends_media(*old(self)) && r.requests@ == media_request_spec(
                    *old(self),
                    CastRequest::Seek {
                        request_id: old(self).request_id,
                        media_session_id: media_session_of(old(self).session)->0,
                        position_ms: ms,
                    },
                ) && final(self).request_id == (if sends_media(*old(self)) {
                    next_id(old(self).request_id)
                } else {
                    old(self).request_id
                }) && final(self).current_path == old(self).current_path
                    && final(self).pending_play == old(self).pending_play,
                BridgeCommand::Play { path, ext_hint, seek_ms, start_paused } => !r.quit
                    && !r.pause_toggled && !r.seek_in_flight && final(self).current_path == Some(path)
                    && final(self).pending_play == Some(
                    PendingPlay { path, ext_hint, seek_ms, start_paused },
                ) && r.requests@ == launch_spec(*old(self)) && final(self).request_id == (
                if old(self).session is Some {
                    old(self).request_id
                } else {
                    next_id(next_id(old(self).request_id))
                }),
            },
    {
        let mut requests: Vec<CastOutgoing> = Vec::new();
        match cmd {
            BridgeCommand::Quit => CommandOutcome {
                requests,
                quit: true,
                pause_toggled: false,
                seek_in_flight: false,
            },
            BridgeCommand::PauseToggle => {
                let has_session = self.session.is_some();
                let media = match &self.session {
                    Some(s) => s.media_session_id,
                    None => None,
                };
                if let Some(m) = media {
                    let kind = if paused {
                        MediaControl::Play
                    } else {
                        MediaControl::Pause
                    };
                    let ghost before = *self;
                    let id = self.next_request_id();
                    proof {
                        assert(media_request_spec(*self, CastRequest::Control { kind, request_id: id, media_session_id: m })
                            == media_request_spec(before, CastRequest::Control { kind, request_id: id, media_session_id: m }));
                    }
                    self.media_request(
                        &mut requests,
                        CastRequest::Control { kind, request_id: id, media_session_id: m },
                    );
                }
                CommandOutcome {
                    requests,
                    quit: false,
                    pause_toggled: has_session,
                    seek_in_flight: false,
                }
            },
            BridgeCommand::Stop => {
                let media = match &self.session {
                    Some(s) => s.media_session_id,
                    None => None,
                };
                if let Some(m) = media {
                    let ghost before = *self;
                    let id = self.next_request_id();
                    proof {
                        assert(media_request_spec(*self, CastRequest::Control { kind: MediaControl::Stop, request_id: id, media_session_id: m })
                            == media_request_spec(before, CastRequest::Control { kind: MediaControl::Stop, request_id: id, media_session_id: m }));
                    }
                    self.media_request(
                        &mut requests,
                        CastRequest::Control {
                            kind: MediaControl::Stop,
                            request_id: id,
                            media_session_id: m,
                        },
                    );
                }
                self.current_path = None;
                CommandOutcome { requests, quit: false, pause_toggled: false, seek_in_flight: false }
            },
            BridgeCommand::Seek { ms } => {
                let media = match &self.session {
                    Some(s) => s.media_session_id,
                    None => None,
                };
                let mut marked = false;
                if let Some(m) = media {
                    let ghost before = *self;
                    let id = self.next_request_id();
                    proof {
                        assert(media_request_spec(*self, CastRequest::Seek { request_id: id, media_session_id: m, position_ms: ms })
                            == media_request_spec(before, CastRequest::Seek { request_id: id, media_session_id: m, position_ms: ms }));
                    }
                    self.media_request(
                        &mut requests,
                        CastRequest::Seek { request_id: id, media_session_id: m, position_ms: ms },
                    );
                    marked = true;
                }
                CommandOutcome { requests, quit: false, pause_toggled: false, seek_in_flight: marked }
            },
            BridgeCommand::Play { path, ext_hint, seek_ms, start_paused } => {
                self.current_path = Some(path.clone());
                self.pending_play = Some(PendingPlay { path, ext_hint, seek_ms, start_paused });
                self.ensure_session(&mut requests);
                CommandOutcome { requests, quit: false, pause_toggled: false, seek_in_flight: false }
            },
        }
    }

    /// The pending play, once the receiver is ready for it (it stays
    /// pending while there is no session).
    pub fn take_pending_play(&mut self) -> (r: Option<PendingPlay>)
        ensures
            old(self).session is Some ==> r == old(self).pending_play && final(self).pending_play is None,
            old(self).session is None ==> r is None && final(self).pending_play == old(self).pending_play,
            final(self).session == old(self).session,
            final(self).current_path == old(self).current_path,
            final(self).request_id == old(self).request_id,
            final(self).last_duration_ms == old(self).last_duration_ms,
            final(self).session_auto_advance_in_flight == old(self).session_auto_advance_in_flight,
    {
        if self.session.is_some() {
            self.pending_play.take()
        } else {
            None
        }
    }

    /// The load request for a pending play: the file's stream URL, its
    /// content type from the extension hint, its path and library details;
    /// playing at once unless it starts paused, from its seek position.
    pub fn load_request(&mut self, play: PendingPlay, url: String, details: TrackDetails) -> (r:
        CastOutgoing)
        requires
            old(self).session is Some,
        ensures
            r.target == CastTarget::Peer(old(self).session->0.transport_id),
            r.namespace == CastNamespace::Media,
            r.request matches CastRequest::Load(l) && l.request_id == old(self).request_id
                && l.session_id == old(self).session->0.session_id && l.url == url
                && l.content_type@ == content_type_for(play.ext_hint@) && l.path == play.path
                && l.title == details.title && l.artist == details.artist && l.album == details.album
                && l.autoplay == !play.start_paused && l.position_ms == play.seek_ms,
            final(self).request_id == next_id(old(self).request_id),
            final(self).session == old(self).session,
            final(self).pending_play == old(self).pending_play,
            final(self).current_path == old(self).current_path,
            final(self).last_duration_ms == old(self).last_duration_ms,
            final(self).session_auto_advance_in_flight == old(self).session_auto_advance_in_flight,
    {
        let id = self.next_request_id();
        let content_type = content_type_for_ext(play.ext_hint.as_str());
        let (transport, session_id) = match &self.session {
            Some(s) => (s.transport_id.clone(), s.session_id.clone()),
            None => {
                proof {
                    assert(false);
                }
                (String::new(), String::new())
            },
        };
        CastOutgoing {
            target: CastTarget::Peer(transport),
            namespace: CastNamespace::Media,
            request: CastRequest::Load(
                LoadRequest {
                    request_id: id,
                    session_id,
                    url,
                    content_type,
                    path: play.path,
                    title: details.title,
                    artist: details.artist,
                    album: details.album,
                    autoplay: !play.start_paused,
                    position_ms: play.seek_ms,
                },
            ),
        }
    }

    /// Timer duties, given the time since the last ping and the last poll:
    /// a ping after five seconds, a media status poll (when a session
    /// exists) after one second. Returns the requests and whether each timer
    /// restarts.
    pub fn on_tick(&mut self, since_ping_ms: u64, since_poll_ms: u64) -> (r: (Vec<CastOutgoing>, bool, bool))
        ensures
            r.1 == (since_ping_ms > PING_INTERVAL_MS),
            r.2 == (since_poll_ms > STATUS_POLL_INTERVAL_MS),
            r.0@ == (if since_ping_ms > PING_INTERVAL_MS {
                seq![
                    CastOutgoing {
                        target: CastTarget::Platform,
                        namespace: CastNamespace::Heartbeat,
                        request: CastRequest::Ping,
                    },
                ]
            } else {
                Seq::empty()
            }) + (if since_poll_ms > STATUS_POLL_INTERVAL_MS && old(self).session is Some {
                seq![
                    CastOutgoing {
                        target: CastTarget::Peer(old(self).session->0.transport_id),
                        namespace: CastNamespace::Media,
                        request: CastRequest::MediaStatus { request_id: old(self).request_id },
                    },
                ]
            } else {
                Seq::empty()
            }),
            final(self).request_id == (if since_poll_ms > STATUS_POLL_INTERVAL_MS && old(self).session is Some {
                next_id(old(self).request_id)
            } else {
                old(self).request_id
            }),
            final(self).session == old(self).session,
            final(self).pending_play == old(self).pending_play,
            final(self).current_path == old(self).current_path,
            final(self).last_duration_ms == old(self).last_duration_ms,
            final(self).session_auto_advance_in_flight == old(self).session_auto_advance_in_flight,
    {
        let mut out: Vec<CastOutgoing> = Vec::new();
        let ping = since_ping_ms > PING_INTERVAL_MS;
        if ping {
            out.push(
                CastOutgoing {
                    target: CastTarget::Platform,
                    namespace: CastNamespace::Heartbeat,
                    request: CastRequest::Ping,
                },
            );
        }
        let ghost after_ping = out@;
        let poll = since_poll_ms > STATUS_POLL_INTERVAL_MS;
        if poll {
            let transport = match &self.session {
                Some(s) => Some(s.transport_id.clone()),
                None => None,
            };
            if let Some(t) = transport {
                let id = self.next_request_id();
                out.push(
                    CastOutgoing {
                        target: CastTarget::Peer(t),
                        namespace: CastNamespace::Media,
                        request: CastRequest::MediaStatus { request_id: id },
                    },
                );
            }
        }
        (out, ping, poll)
    }

    /// Answers a heartbeat message: a pong to its sender for a ping.
    pub fn on_heartbeat(msg_type: &str, source_id: String) -> (r: Option<CastOutgoing>)
        ensures
            msg_type@ == "PING"@ ==> r == Some(
                CastOutgoing {
                    target: CastTarget::Peer(source_id),
                    namespace: CastNamespace::Heartbeat,
                    request: CastRequest::Pong,
                },
            ),
            msg_type@ != "PING"@ ==> r is None,
    {
        let t = chars_of(msg_type);
        if chars_eq_str(t.as_slice(), "PING") {
            Some(
                CastOutgoing {
                    target: CastTarget::Peer(source_id),
                    namespace: CastNamespace::Heartbeat,
                    request: CastRequest::Pong,
                },
            )
        } else {
            None
        }
    }

    /// Handles a receiver status: when the Default Media Receiver runs on
    /// a transport other than the current session's, it becomes the session
    /// (without media session yet), and the worker connects to it and asks
    /// for its media status.
    pub fn on_receiver_status(&mut self, apps: &Vec<ReceiverApp>) -> (r: Vec<CastOutgoing>)
        ensures
            match dmr_app_spec(apps@) {
                Some((t, sid)) => if old(self).session is Some && old(self).session->0.transport_id@
                    == t@ {
                    r@.len() == 0 && *final(self) == *old(self)
                } else {
                    &&& final(self).session == Some(
                        CastSession { transport_id: t, session_id: sid, media_session_id: None },
                    )
                    &&& r@ == seq![
                        CastOutgoing {
                            target: CastTarget::Peer(t),
                            namespace: CastNamespace::Connection,
                            request: CastRequest::Connect,
                        },
                        CastOutgoing {
                            target: CastTarget::Peer(t),
                            namespace: CastNamespace::Media,
                            request: CastRequest::MediaStatus { request_id: old(self).request_id },
                        },
                    ]
                    &&& final(self).request_id == next_id(old(self).request_id)
                    &&& final(self).pending_play == old(self).pending_play
                    &&& final(self).current_path == old(self).current_path
                    &&& final(self).last_duration_ms == old(self).last_duration_ms
                    &&& final(self).session_auto_advance_in_flight
                        == old(self).session_auto_advance_in_flight
                },
                None => r@.len() == 0 && *final(self) == *old(self),
            },
    {
        let mut out: Vec<CastOutgoing> = Vec::new();
        if let Some((transport_id, session_id)) = dmr_app(apps) {
            let same = match &self.session {
                Some(s) => s.transport_id == transport_id,
                None => false,
            };
            if !same {
                let id = self.next_request_id();
                self.session = Some(
                    CastSession {
                        transport_id: transport_id.clone(),
                        session_id,
                        media_session_id: None,
                    },
                );
                out.push(
                    CastOutgoing {
                        target: CastTarget::Peer(transport_id.clone()),
                        namespace: CastNamespace::Connection,
                        request: CastRequest::Connect,
                    },
                );
                out.push(
                    CastOutgoing {
                        target: CastTarget::Peer(transport_id),
                        namespace: CastNamespace::Media,
                        request: CastRequest::MediaStatus { request_id: id },
                    },
                );
            }
        }
        out
    }

    /// Handles a media status: records the media session id, drops the
    /// current file when playback cleared, and says what the loop does with
    /// the status. `session_bound` is whether a session holds the output.
    pub fn on_media_status(
        &mut self,
        info: MediaStatusInfo,
        device_name: &String,
        is_active: bool,
        session_bound: bool,
    ) -> (r: MediaStatusOutcome)
        ensures
            r.remote == remote_status_spec(info, old(self).current_path, *device_name),
            r.remote.paused <==> (info.player_state matches Some(s) && s@ == "PAUSED"@),
            final(self).session == match old(self).session {
                Some(s) => Some(
                    CastSession {
                        media_session_id: if info.media_session_id is Some {
                            info.media_session_id
                        } else {
                            s.media_session_id
                        },
                        ..s
                    },
                ),
                None => None,
            },
            final(self).current_path == (if clears_playback(info) {
                None
            } else {
                old(self).current_path
            }),
            final(self).session_auto_advance_in_flight == (old(self).session_auto_advance_in_flight
                && state_is(info.player_state, "IDLE"@)),
            r.session_advance == (wants_session_advance_spec(info, old(self).current_path is Some)
                && !final(self).session_auto_advance_in_flight && session_bound),
            r.report_status == is_active,
            r.queue_advance == (is_active && !session_bound),
            final(self).last_duration_ms == (if is_active {
                r.remote.duration_ms
            } else {
                old(self).last_duration_ms
            }),
            final(self).request_id == old(self).request_id,
            final(self).pending_play == old(self).pending_play,
    {
        match self.session.take() {
            Some(s) => {
                let media = if info.media_session_id.is_some() {
                    info.media_session_id
                } else {
                    s.media_session_id
                };
                self.session = Some(
                    CastSession {
                        transport_id: s.transport_id,
                        session_id: s.session_id,
                        media_session_id: media,
                    },
                );
            },
            None => {},
        }
        let had_current_path = self.current_path.is_some();
        let is_idle = opt_is(&info.player_state, "IDLE");
        let is_paused = opt_is(&info.player_state, "PAUSED");
        let cleared = is_idle && info.idle_reason.is_some();
        let end_reason = end_reason_of(&info.idle_reason);
        if cleared {
            self.current_path = None;
        }
        let now_playing = match &self.current_path {
            Some(p) => Some(p.clone()),
            None => None,
        };
        let mut remote = BridgeStatus::default();
        remote.now_playing = now_playing;
        remote.paused = is_paused;
        remote.elapsed_ms = if cleared {
            None
        } else {
            info.current_time_ms
        };
        remote.duration_ms = if cleared {
            None
        } else {
            info.duration_ms
        };
        remote.device = Some(device_name.clone());
        remote.end_reason = end_reason;
        if !is_idle {
            self.session_auto_advance_in_flight = false;
        }
        let idle_without_reason = is_idle && end_reason.is_none();
        let is_eof = match end_reason {
            Some(PlaybackEndReason::Eof) => true,
            _ => false,
        };
        let wants = is_eof || (idle_without_reason && had_current_path);
        let session_advance = wants && !self.session_auto_advance_in_flight && session_bound;
        if is_active {
            self.last_duration_ms = remote.duration_ms;
        }
        MediaStatusOutcome {
            remote,
            session_advance,
            report_status: is_active,
            queue_advance: is_active && !session_bound,
        }
    }

    /// Moves a bound session to its next file: returns the play command for
    /// it (extension hint lowercased, no seek, not paused) and the status
    /// to record, which is `remote` playing that file from its start.
    pub fn on_session_advance(&mut self, next_path: String, remote: &BridgeStatus) -> (r: (BridgeCommand, BridgeStatus))
        ensures
            (r.0 matches BridgeCommand::Play { path, ext_hint, seek_ms, start_paused } && path
                == next_path && ext_hint@ == ext_hint_of(next_path@) && seek_ms is None && !start_paused),
            r.1 == (BridgeStatus {
                now_playing: Some(next_path),
                paused: false,
                elapsed_ms: None,
                end_reason: None,
                ..*remote
            }),
            final(self).current_path == Some(next_path),
            final(self).session_auto_advance_in_flight,
            final(self).session == old(self).session,
            final(self).request_id == old(self).request_id,
            final(self).pending_play == old(self).pending_play,
            final(self).last_duration_ms == old(self).last_duration_ms,
    {
        let ext_hint = lowercase_extension(next_path.as_str());
        self.current_path = Some(next_path.clone());
        self.session_auto_advance_in_flight = true;
        let mut next_remote = copy_status(remote);
        next_remote.now_playing = Some(next_path.clone());
        next_remote.paused = false;
        next_remote.elapsed_ms = None;
        next_remote.end_reason = None;
        (
            BridgeCommand::Play { path: next_path, ext_hint, seek_ms: None, start_paused: false },
            next_remote,
        )
    }
}

fn copy_opt(v: &Option<String>) -> (r: Option<String>)
    ensures
        r == *v,
{
    match v {
        Some(s) => Some(s.clone()),
        None => None,
    }
}

/// A copy of a status.
pub fn copy_status(s: &BridgeStatus) -> (r: BridgeStatus)
    ensures
        r == *s,
{
    BridgeStatus {
        now_playing: copy_opt(&s.now_playing),
        paused: s.paused,
        elapsed_ms: s.elapsed_ms,
        duration_ms: s.duration_ms,
        source_codec: copy_opt(&s.source_codec),
        source_bit_depth: s.source_bit_depth,
        container: copy_opt(&s.container),
        output_sample_format: copy_opt(&s.output_sample_format),
        resampling: s.resampling,
        resample_from_hz: s.resample_from_hz,
        resample_to_hz: s.resample_to_hz,
        sample_rate: s.sample_rate,
        channels: s.channels,
        device: copy_opt(&s.device),
        underrun_frames: s.underrun_frames,
        underrun_events: s.underrun_events,
        buffer_size_frames: s.buffer_size_frames,
        buffered_frames: s.buffered_frames,
        buffer_capacity_frames: s.buffer_capacity_frames,
        end_reason: s.end_reason,
    }
}

/// Lowercased extension of a path, empty when it has none.
pub open spec fn ext_hint_of(path: Seq<char>) -> Seq<char> {
    match extension_of(path) {
        Some(e) => lower_seq(e),
        None => Seq::empty(),
    }
}

/// The lowercased extension of a path, as an extension hint.
pub fn lowercase_extension(path: &str) -> (r: String)
    ensures
        r@ == ext_hint_of(path@),
{
    let c = chars_of(path);
    match extension(c.as_slice()) {
        Some(e) => {
            let l = lower_chars(e.as_slice());
            string_from_chars(l.as_slice())
        },
        None => String::new(),
    }
}

fn opt_is(value: &Option<String>, lit: &str) -> (r: bool)
    ensures
        r == (opt_string_view(*value) == Some(lit@)),
{
    match value {
        Some(v) => {
            let c = chars_of(v.as_str());
            let l = chars_of(lit);
            crate::text::chars_eq(c.as_slice(), l.as_slice())
        },
        None => false,
    }
}

fn end_reason_of(idle_reason: &Option<String>) -> (r: Option<PlaybackEndReason>)
    ensures
        r == end_reason_spec(opt_string_view(*idle_reason)),
{
    if opt_is(idle_reason, "FINISHED") {
        Some(PlaybackEndReason::Eof)
    } else if opt_is(idle_reason, "CANCELLED") {
        Some(PlaybackEndReason::Stopped)
    } else if opt_is(idle_reason, "ERROR") {
        Some(PlaybackEndReason::Error)
    } else if opt_is(idle_reason, "STOPPED") {
        Some(PlaybackEndReason::Stopped)
    } else {
        None
    }
}

/// Finds the Default Media Receiver among the applications of a receiver
/// status.
pub fn dmr_app(apps: &Vec<ReceiverApp>) -> (r: Option<(String, String)>)
    ensures
        r == dmr_app_spec(apps@),
{
    let mut i: usize = 0;
    assert(apps@.subrange(0, apps@.len() as int) =~= apps@);
    while i < apps.len()
        invariant
            i <= apps@.len(),
            dmr_app_spec(apps@) == dmr_app_spec(apps@.subrange(i as int, apps@.len() as int)),
        decreases apps@.len() - i,
    {
        let ghost rest = apps@.subrange(i as int, apps@.len() as int);
        assert(rest[0] == apps@[i as int]);
        assert(rest.drop_first() =~= apps@.subrange(i + 1, apps@.len() as int));
        let app = &apps[i];
        if opt_is(&app.app_id, DMR_APP_ID) {
            proof {
                reveal_strlit("CC1AD845");
            }
            return match (&app.transport_id, &app.session_id) {
                (Some(t), Some(s)) => Some((t.clone(), s.clone())),
                _ => None,
            };
        }
        i = i + 1;
    }
    None
}

/// The cast channel named by a namespace URN.
pub open spec fn namespace_spec(urn: Seq<char>) -> Option<CastNamespace> {
    if urn == "urn:x-cast:com.google.cast.tp.connection"@ {
        Some(CastNamespace::Connection)
    } else if urn == "urn:x-cast:com.google.cast.tp.heartbeat"@ {
        Some(CastNamespace::Heartbeat)
    } else if urn == "urn:x-cast:com.google.cast.receiver"@ {
        Some(CastNamespace::Receiver)
    } else if urn == "urn:x-cast:com.google.cast.media"@ {
        Some(CastNamespace::Media)
    } else {
        None
    }
}

/// Reads the channel of an incoming message.
pub fn namespace_of(urn: &str) -> (r: Option<CastNamespace>)
    ensures
        r == namespace_spec(urn@),
{
    let c = chars_of(urn);
    if chars_eq_str(c.as_slice(), "urn:x-cast:com.google.cast.tp.connection") {
        Some(CastNamespace::Connection)
    } else if chars_eq_str(c.as_slice(), "urn:x-cast:com.google.cast.tp.heartbeat") {
        Some(CastNamespace::Heartbeat)
    } else if chars_eq_str(c.as_slice(), "urn:x-cast:com.google.cast.receiver") {
        Some(CastNamespace::Receiver)
    } else if chars_eq_str(c.as_slice(), "urn:x-cast:com.google.cast.media") {
        Some(CastNamespace::Media)
    } else {
        None
    }
}

/// URN of a cast channel.
pub fn namespace_urn(ns: CastNamespace) -> (r: &'static str)
    ensures
        namespace_spec(r@) == Some(ns),
{
    let r = match ns {
        CastNamespace::Connection => "urn:x-cast:com.google.cast.tp.connection",
        CastNamespace::Heartbeat => "urn:x-cast:com.google.cast.tp.heartbeat",
        CastNamespace::Receiver => "urn:x-cast:com.google.cast.receiver",
        CastNamespace::Media => "urn:x-cast:com.google.cast.media",
    };
    proof {
        reveal_strlit("urn:x-cast:com.google.cast.tp.connection");
        reveal_strlit("urn:x-cast:com.google.cast.tp.heartbeat");
        reveal_strlit("urn:x-cast:com.google.cast.receiver");
        reveal_strlit("urn:x-cast:com.google.cast.media");
        assert("urn:x-cast:com.google.cast.tp.connection"@.len() == 40);
        assert("urn:x-cast:com.google.cast.tp.heartbeat"@.len() == 39);
        assert("urn:x-cast:com.google.cast.receiver"@.len() == 35);
        assert("urn:x-cast:com.google.cast.media"@.len() == 32);
    }
    r
}

/// Whether an output id names this cast device: `cast:{device_id}`.
pub fn is_active_cast_output(active_output_id: Option<&str>, device_id: &str) -> (r: bool)
    ensures
        r == (opt_view(active_output_id) == Some("cast:"@ + device_id@)),
{
    match active_output_id {
        Some(a) => {
            let mut expected: Vec<char> = Vec::new();
            push_str_chars(&mut expected, "cast:");
            push_str_chars(&mut expected, device_id);
            let c = chars_of(a);
            crate::text::chars_eq(c.as_slice(), expected.as_slice())
        },
        None => false,
    }
}

/// A media status is recorded as paused exactly when the receiver reports
/// its player as `PAUSED`; playing, buffering, idle or no state at all is
/// not paused.
pub proof fn law_paused_exactly_when_player_paused(
    info: MediaStatusInfo,
    current_path: Option<String>,
    device_name: String,
)
    ensures
        remote_status_spec(info, current_path, device_name).paused <==> (info.player_state matches Some(s)
            && s@ == "PAUSED"@),
{
}

} // verus!
