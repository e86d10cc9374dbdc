//! Playback status reported by renderers, and the commands a renderer
//! worker takes.

use vstd::prelude::*;

verus! {

/// Why playback ended on the renderer.
#[derive(Clone, Copy, Debug, PartialEq, Eq, Structural)]
pub enum PlaybackEndReason {
    /// Natural end of the file or stream.
    Eof,
    /// Decoder, transport or output error.
    Error,
    /// Stopped by a command.
    Stopped,
}

/// Low-level playback status of a bridge or receiver.
#[derive(Clone, Debug, PartialEq, Eq)]
pub struct BridgeStatus {
    /// File or path being played.
    pub now_playing: Option<String>,
    /// Paused or idle.
    pub paused: bool,
    pub elapsed_ms: Option<u64>,
    pub duration_ms: Option<u64>,
    pub source_codec: Option<String>,
    pub source_bit_depth: Option<u16>,
    pub container: Option<String>,
    pub output_sample_format: Option<String>,
    pub resampling: Option<bool>,
    pub resample_from_hz: Option<u32>,
    pub resample_to_hz: Option<u32>,
    pub sample_rate: Option<u32>,
    pub channels: Option<u16>,
    /// Output device name.
    pub device: Option<String>,
    pub underrun_frames: Option<u64>,
    pub underrun_events: Option<u64>,
    pub buffer_size_frames: Option<u32>,
    pub buffered_frames: Option<u64>,
    pub buffer_capacity_frames: Option<u64>,
    /// Why playback went idle.
    pub end_reason: Option<PlaybackEndReason>,
}

/// A status with nothing known: not paused, every value missing.
pub open spec fn empty_status() -> BridgeStatus {
    BridgeStatus {
        now_playing: None,
        paused: false,
        elapsed_ms: None,
        duration_ms: None,
        source_codec: None,
        source_bit_depth: None,
        container: None,
        output_sample_format: None,
        resampling: None,
        resample_from_hz: None,
        resample_to_hz: None,
        sample_rate: None,
        channels: None,
        device: None,
        underrun_frames: None,
        underrun_events: None,
        buffer_size_frames: None,
        buffered_frames: None,
        buffer_capacity_frames: None,
        end_reason: None,
    }
}

impl Default for BridgeStatus {
    fn default() -> (r: Self)
        ensures
            r == empty_status(),
    {
        BridgeStatus {
            now_playing: None,
            paused: false,
            elapsed_ms: None,
            duration_ms: None,
            source_codec: None,
            source_bit_depth: None,
            container: None,
            output_sample_format: None,
            resampling: None,
            resample_from_hz: None,
            resample_to_hz: None,
            sample_rate: None,
            channels: None,
            device: None,
            underrun_frames: None,
            underrun_events: None,
            buffer_size_frames: None,
            buffered_frames: None,
            buffer_capacity_frames: None,
            end_reason: None,
        }
    }
}

/// Session-level playback status: a renderer status extended with queue
/// and library details.
#[derive(Clone, Debug)]
pub struct PlaybackStatus {
    pub now_playing_track_id: Option<i64>,
    pub paused: bool,
    /// The selected output is reachable.
    pub bridge_online: bool,
    pub elapsed_ms: Option<u64>,
    pub duration_ms: Option<u64>,
    pub source_codec: Option<String>,
    pub source_bit_depth: Option<u16>,
    pub container: Option<String>,
    pub output_sample_format: Option<String>,
    pub resampling: Option<bool>,
    pub resample_from_hz: Option<u32>,
    pub resample_to_hz: Option<u32>,
    pub sample_rate: Option<u32>,
    pub channels: Option<u16>,
    pub output_sample_rate: Option<u32>,
    pub output_device: Option<String>,
    pub title: Option<String>,
    pub artist: Option<String>,
    pub album: Option<String>,
    pub format: Option<String>,
    pub output_id: Option<String>,
    pub bitrate_kbps: Option<u32>,
    pub underrun_frames: Option<u64>,
    pub underrun_events: Option<u64>,
    pub buffer_size_frames: Option<u32>,
    pub buffered_frames: Option<u64>,
    pub buffer_capacity_frames: Option<u64>,
    pub has_previous: Option<bool>,
}

/// Command for a renderer worker.
#[derive(Debug, Clone)]
pub enum BridgeCommand {
    /// Play a file, optionally seeking and starting paused.
    Play { path: String, ext_hint: String, seek_ms: Option<u64>, start_paused: bool },
    /// Toggle pause.
    PauseToggle,
    /// Stop playback.
    Stop,
    /// Seek to an absolute position in milliseconds.
    Seek { ms: u64 },
    /// End the worker loop.
    Quit,
}

/// Records whether the bridge is online and says whether that changed.
pub fn update_online_and_should_emit(bridge_online: &mut bool, new_status: bool) -> (r: bool)
    ensures
        *final(bridge_online) == new_status,
        r == (*old(bridge_online) != new_status),
{
    let was_online = *bridge_online;
    *bridge_online = new_status;
    was_online != new_status
}

} // verus!
