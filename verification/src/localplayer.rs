//! The command loop of the local player: what each playback command does
//! to the current track, the pause state and the playing session.

use vstd::prelude::*;
use crate::playback::BridgeCommand;

verus! {

/// What the local player knows between commands.
#[derive(Debug, Clone)]
pub struct LocalPlayerState {
    /// The track being played, if any.
    pub current: Option<String>,
    pub paused: bool,
}

/// A new playing session: the file, where to start, and whether paused.
#[derive(Debug, Clone)]
pub struct SessionStart {
    pub path: String,
    pub seek_ms: Option<u64>,
    pub paused: bool,
}

/// Which status change a command reports.
#[derive(Debug, Clone, Copy, PartialEq, Eq, Structural)]
pub enum StatusNote {
    Unchanged,
    Stopped,
    PauseToggled,
    SeekInFlight,
}

/// What the player does for a command.
#[derive(Debug, Clone)]
pub struct PlayerActions {
    /// End the running session first.
    pub cancel_session: bool,
    /// Start a new session.
    pub start: Option<SessionStart>,
    /// Set the running session's pause flag.
    pub set_paused: Option<bool>,
    pub status: StatusNote,
    /// Leave the command loop.
    pub quit: bool,
}

impl LocalPlayerState {
    /// Nothing playing, not paused.
    pub fn new() -> (r: Self)
        ensures
            r.current is None,
            !r.paused,
    {
        LocalPlayerState { current: None, paused: false }
    }

    /// Applies a command: `Quit` ends the session and the loop; `Stop` ends
    /// the session and forgets the track; `PauseToggle` flips the pause
    /// state and tells the session; `Seek` restarts the current track at the
    /// position, keeping the pause state (ignored without a track); `Play`
    /// starts the file, paused as asked.
    pub fn on_command(&mut self, cmd: BridgeCommand) -> (r: PlayerActions)
        ensures
            match cmd {
                BridgeCommand::Quit => r.quit && r.cancel_session && r.start is None && r.status == StatusNote::Unchanged
                    && final(self).current == old(self).current && final(self).paused == old(self).paused,
                BridgeCommand::Stop => !r.quit && r.cancel_session && r.start is None && r.status == StatusNote::Stopped
                    && final(self).current is None && !final(self).paused,
                BridgeCommand::PauseToggle => !r.quit && !r.cancel_session && r.start is None && r.set_paused == Some(
                    !old(self).paused,
                ) && r.status == StatusNote::PauseToggled && final(self).current == old(self).current
                    && final(self).paused == !old(self).paused,
                BridgeCommand::Seek { ms } => !r.quit && final(self).current == old(self).current && final(self).paused
                    == old(self).paused && match old(self).current {
                    None => !r.cancel_session && r.start is None && r.status == StatusNote::Unchanged,
                    Some(p) => r.cancel_session && r.status == StatusNote::SeekInFlight && (r.start matches Some(s)
                        && s.path == p && s.seek_ms == Some(ms) && s.paused == old(self).paused),
                },
                BridgeCommand::Play { path, seek_ms, start_paused, .. } => !r.quit && r.cancel_session
                    && r.status == StatusNote::Unchanged && final(self).current == Some(path) && final(self).paused
                    == start_paused && (r.start matches Some(s) && s.path == path && s.seek_ms == seek_ms && s.paused
                    == start_paused),
            },
    {
        match cmd {
            BridgeCommand::Quit => PlayerActions {
                cancel_session: true,
                start: None,
                set_paused: None,
                status: StatusNote::Unchanged,
                quit: true,
            },
            BridgeCommand::Stop => {
                self.current = None;
                self.paused = false;
                PlayerActions {
                    cancel_session: true,
                    start: None,
                    set_paused: None,
                    status: StatusNote::Stopped,
                    quit: false,
                }
            },
            BridgeCommand::PauseToggle => {
                self.paused = !self.paused;
                PlayerActions {
                    cancel_session: false,
                    start: None,
                    set_paused: Some(self.paused),
                    status: StatusNote::PauseToggled,
                    quit: false,
                }
            },
            BridgeCommand::Seek { ms } => match &self.current {
                None => PlayerActions {
                    cancel_session: false,
                    start: None,
                    set_paused: None,
                    status: StatusNote::Unchanged,
                    quit: false,
                },
                Some(p) => PlayerActions {
                    cancel_session: true,
                    start: Some(SessionStart { path: p.clone(), seek_ms: Some(ms), paused: self.paused }),
                    set_paused: None,
                    status: StatusNote::SeekInFlight,
                    quit: false,
                },
            },
            BridgeCommand::Play { path, seek_ms, start_paused, .. } => {
                self.current = Some(path.clone());
                self.paused = start_paused;
                PlayerActions {
                    cancel_session: true,
                    start: Some(SessionStart { path, seek_ms, paused: start_paused }),
                    set_paused: None,
                    status: StatusNote::Unchanged,
                    quit: false,
                }
            },
        }
    }
}

/// The id of a new playing session after `counter` sessions: one more,
/// saturating.
pub fn next_session_id(counter: u64) -> (r: u64)
    ensures
        r == if counter == u64::MAX {
            u64::MAX
        } else {
            (counter + 1) as u64
        },
{
    counter.saturating_add(1)
}

} // verus!
