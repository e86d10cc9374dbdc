//! Bridge wire protocol, version 2 framing.
//!
//! A connection starts with a prelude (the magic `ABRD` and a `u16` LE
//! version), followed by frames: a kind byte, a `u32` LE payload length and
//! the payload itself.

use vstd::prelude::*;
use vstd::utf8::{decode_utf8, encode_utf8, encode_utf8_decode_utf8, encode_utf8_valid_utf8, valid_utf8};
use crate::strings::utf8_to_string;
use crate::wire::{le_bytes, le_value, lemma_le_roundtrip, lemma_le_value_bytes, lemma_pow256_values, push_all, push_le, read_le};

verus! {

/// Protocol version carried in the prelude.
pub const VERSION: u16 = 4;

/// Kinds of frames in the bridge protocol.
#[derive(Debug, Clone, Copy, PartialEq, Eq, Structural)]
pub enum FrameKind {
    BeginFile,
    FileChunk,
    EndFile,
    Pause,
    Resume,
    Next,
    /// Receiver to sender: basic track metadata.
    TrackInfo,
    /// Receiver to sender: playback position updates.
    PlaybackPos,
    /// Sender to receiver: request device list.
    ListDevices,
    /// Receiver to sender: device list response.
    DeviceList,
    /// Sender to receiver: set output device by substring.
    SetDevice,
    /// Receiver to sender: device set ack.
    DeviceSet,
    Error,
}

/// Category of a protocol error.
#[derive(Debug, Clone, Copy, PartialEq, Eq, Structural)]
pub enum ErrorKind {
    /// The bytes received do not form a valid message.
    InvalidData,
    /// The value handed in cannot be encoded.
    InvalidInput,
    /// The input ended before a complete item was read.
    UnexpectedEof,
}

/// Errors of the protocol codecs.
#[derive(Debug, Clone, Copy, PartialEq, Eq, Structural)]
pub enum ProtoError {
    UnexpectedEof,
    UnknownFrameKind(u8),
    BadMagic,
    UnsupportedVersion(u16),
    PayloadTooLarge,
    ExtensionTooLong,
    ShortBeginFile,
    BeginFileLengthMismatch,
    ExtensionNotUtf8,
    BadTrackInfoLength,
    BadPlaybackPosLength,
    TooManyDevices,
    DeviceNameTooLong,
    ShortDeviceList,
    TruncatedDeviceList,
    TruncatedDeviceName,
    DeviceNameNotUtf8,
    ShortDeviceSelector,
    DeviceSelectorLengthMismatch,
    DeviceSelectorNotUtf8,
}

impl ProtoError {
    pub open spec fn spec_kind(self) -> ErrorKind {
        match self {
            ProtoError::UnexpectedEof => ErrorKind::UnexpectedEof,
            ProtoError::PayloadTooLarge => ErrorKind::InvalidInput,
            ProtoError::ExtensionTooLong => ErrorKind::InvalidInput,
            ProtoError::TooManyDevices => ErrorKind::InvalidInput,
            ProtoError::DeviceNameTooLong => ErrorKind::InvalidInput,
            _ => ErrorKind::InvalidData,
        }
    }

    /// The category of this error.
    pub fn kind(&self) -> (k: ErrorKind)
        ensures
            k == self.spec_kind(),
    {
        match self {
            ProtoError::UnexpectedEof => ErrorKind::UnexpectedEof,
            ProtoError::PayloadTooLarge => ErrorKind::InvalidInput,
            ProtoError::ExtensionTooLong => ErrorKind::InvalidInput,
            ProtoError::TooManyDevices => ErrorKind::InvalidInput,
            ProtoError::DeviceNameTooLong => ErrorKind::InvalidInput,
            _ => ErrorKind::InvalidData,
        }
    }
}

impl FrameKind {
    /// Wire byte of this frame kind.
    pub open spec fn spec_code(self) -> u8 {
        match self {
            FrameKind::BeginFile => 0x10,
            FrameKind::FileChunk => 0x11,
            FrameKind::EndFile => 0x12,
            FrameKind::Pause => 0x20,
            FrameKind::Resume => 0x21,
            FrameKind::Next => 0x23,
            FrameKind::TrackInfo => 0x30,
            FrameKind::PlaybackPos => 0x31,
            FrameKind::ListDevices => 0x40,
            FrameKind::DeviceList => 0x41,
            FrameKind::SetDevice => 0x42,
            FrameKind::DeviceSet => 0x43,
            FrameKind::Error => 0x7f,
        }
    }

    /// The frame kind whose wire byte is `b`, if any.
    pub open spec fn spec_from_code(b: u8) -> Option<FrameKind> {
        if b == 0x10 {
            Some(FrameKind::BeginFile)
        } else if b == 0x11 {
            Some(FrameKind::FileChunk)
        } else if b == 0x12 {
            Some(FrameKind::EndFile)
        } else if b == 0x20 {
            Some(FrameKind::Pause)
        } else if b == 0x21 {
            Some(FrameKind::Resume)
        } else if b == 0x23 {
            Some(FrameKind::Next)
        } else if b == 0x30 {
            Some(FrameKind::TrackInfo)
        } else if b == 0x31 {
            Some(FrameKind::PlaybackPos)
        } else if b == 0x40 {
            Some(FrameKind::ListDevices)
        } else if b == 0x41 {
            Some(FrameKind::DeviceList)
        } else if b == 0x42 {
            Some(FrameKind::SetDevice)
        } else if b == 0x43 {
            Some(FrameKind::DeviceSet)
        } else if b == 0x7f {
            Some(FrameKind::Error)
        } else {
            None
        }
    }

    /// Wire byte of this frame kind.
    pub fn as_u8(self) -> (b: u8)
        ensures
            b == self.spec_code(),
    {
        match self {
            FrameKind::BeginFile => 0x10,
            FrameKind::FileChunk => 0x11,
            FrameKind::EndFile => 0x12,
            FrameKind::Pause => 0x20,
            FrameKind::Resume => 0x21,
            FrameKind::Next => 0x23,
            FrameKind::TrackInfo => 0x30,
            FrameKind::PlaybackPos => 0x31,
            FrameKind::ListDevices => 0x40,
            FrameKind::DeviceList => 0x41,
            FrameKind::SetDevice => 0x42,
            FrameKind::DeviceSet => 0x43,
            FrameKind::Error => 0x7f,
        }
    }

    /// Decodes a frame kind from its wire byte.
    pub fn from_u8(b: u8) -> (r: Result<FrameKind, ProtoError>)
        ensures
            r == match FrameKind::spec_from_code(b) {
                Some(k) => Ok(k),
                None => Err(ProtoError::UnknownFrameKind(b)),
            },
    {
        if b == 0x10 {
            Ok(FrameKind::BeginFile)
        } else if b == 0x11 {
            Ok(FrameKind::FileChunk)
        } else if b == 0x12 {
            Ok(FrameKind::EndFile)
        } else if b == 0x20 {
            Ok(FrameKind::Pause)
        } else if b == 0x21 {
            Ok(FrameKind::Resume)
        } else if b == 0x23 {
            Ok(FrameKind::Next)
        } else if b == 0x30 {
            Ok(FrameKind::TrackInfo)
        } else if b == 0x31 {
            Ok(FrameKind::PlaybackPos)
        } else if b == 0x40 {
            Ok(FrameKind::ListDevices)
        } else if b == 0x41 {
            Ok(FrameKind::DeviceList)
        } else if b == 0x42 {
            Ok(FrameKind::SetDevice)
        } else if b == 0x43 {
            Ok(FrameKind::DeviceSet)
        } else if b == 0x7f {
            Ok(FrameKind::Error)
        } else {
            Err(ProtoError::UnknownFrameKind(b))
        }
    }
}

/// Every frame kind is recovered from its wire byte, and every byte that
/// decodes to a kind is that kind's wire byte.
pub proof fn law_frame_kind_code_roundtrip(k: FrameKind, b: u8)
    ensures
        FrameKind::spec_from_code(k.spec_code()) == Some(k),
        FrameKind::spec_from_code(b) == Some(k) ==> k.spec_code() == b,
{
}

/// The connection magic `ABRD`.
pub open spec fn magic_bytes() -> Seq<u8> {
    seq![0x41u8, 0x42u8, 0x52u8, 0x44u8]
}

/// Bytes of the connection prelude: magic, then the version as `u16` LE.
pub open spec fn prelude_bytes() -> Seq<u8> {
    magic_bytes() + le_bytes(VERSION as nat, 2)
}

/// Outcome of reading a prelude from the start of `s`.
pub open spec fn prelude_result(s: Seq<u8>) -> Result<(), ProtoError> {
    if s.len() < 4 {
        Err(ProtoError::UnexpectedEof)
    } else if s.subrange(0, 4) != magic_bytes() {
        Err(ProtoError::BadMagic)
    } else if s.len() < 6 {
        Err(ProtoError::UnexpectedEof)
    } else if le_value(s.subrange(4, 6)) != VERSION as nat {
        Err(ProtoError::UnsupportedVersion(le_value(s.subrange(4, 6)) as u16))
    } else {
        Ok(())
    }
}

/// Appends the connection prelude (magic + version) to `out`.
pub fn write_prelude(out: &mut Vec<u8>)
    ensures
        final(out)@ == old(out)@ + prelude_bytes(),
{
    out.push(0x41);
    out.push(0x42);
    out.push(0x52);
    out.push(0x44);
    let ghost mid = out@;
    proof {
        lemma_pow256_values();
    }
    push_le(out, VERSION as u64, 2);
    assert(mid =~= old(out)@ + magic_bytes());
    assert(out@ =~= old(out)@ + prelude_bytes());
}

/// Reads and validates the connection prelude at the start of `input`.
pub fn read_prelude(input: &[u8]) -> (r: Result<(), ProtoError>)
    ensures
        r == prelude_result(input@),
{
    if input.len() < 4 {
        return Err(ProtoError::UnexpectedEof);
    }
    if !(input[0] == 0x41 && input[1] == 0x42 && input[2] == 0x52 && input[3] == 0x44) {
        assert(input@.subrange(0, 4) != magic_bytes()) by {
            if input@.subrange(0, 4) == magic_bytes() {
                assert(input@.subrange(0, 4)[0] == input@[0]);
                assert(input@.subrange(0, 4)[1] == input@[1]);
                assert(input@.subrange(0, 4)[2] == input@[2]);
                assert(input@.subrange(0, 4)[3] == input@[3]);
            }
        }
        return Err(ProtoError::BadMagic);
    }
    assert(input@.subrange(0, 4) =~= magic_bytes());
    if input.len() < 6 {
        return Err(ProtoError::UnexpectedEof);
    }
    let version = read_le(input, 4, 2);
    proof {
        lemma_pow256_values();
        lemma_le_value_bytes(input@.subrange(4, 6));
    }
    if version != VERSION as u64 {
        return Err(ProtoError::UnsupportedVersion(version as u16));
    }
    Ok(())
}

/// Bytes of a frame: kind byte, payload length as `u32` LE, payload.
pub open spec fn frame_bytes(kind: FrameKind, payload: Seq<u8>) -> Seq<u8> {
    seq![kind.spec_code()] + le_bytes(payload.len(), 4) + payload
}

/// Encodes a frame (header + payload) into one buffer.
pub fn encode_frame(kind: FrameKind, payload: &[u8]) -> (r: Result<Vec<u8>, ProtoError>)
    ensures
        payload@.len() > u32::MAX ==> r == Err::<Vec<u8>, ProtoError>(ProtoError::PayloadTooLarge),
        payload@.len() <= u32::MAX ==> (r matches Ok(v) && v@ == frame_bytes(kind, payload@)),
{
    if payload.len() > 0xffff_ffff {
        return Err(ProtoError::PayloadTooLarge);
    }
    let mut out: Vec<u8> = Vec::new();
    out.push(kind.as_u8());
    proof {
        lemma_pow256_values();
    }
    push_le(&mut out, payload.len() as u64, 4);
    push_all(&mut out, payload);
    Ok(out)
}

/// Appends a frame (header + payload) to `out`.
pub fn write_frame(out: &mut Vec<u8>, kind: FrameKind, payload: &[u8]) -> (r: Result<(), ProtoError>)
    ensures
        payload@.len() > u32::MAX ==> r == Err::<(), ProtoError>(ProtoError::PayloadTooLarge)
            && final(out)@ == old(out)@,
        payload@.len() <= u32::MAX ==> r == Ok::<(), ProtoError>(()) && final(out)@ == old(out)@
            + frame_bytes(kind, payload@),
{
    let frame = encode_frame(kind, payload)?;
    push_all(out, frame.as_slice());
    Ok(())
}

/// Outcome of reading a frame header from the start of `s`.
pub open spec fn frame_header_result(s: Seq<u8>) -> Result<(FrameKind, u32), ProtoError> {
    if s.len() < 1 {
        Err(ProtoError::UnexpectedEof)
    } else {
        match FrameKind::spec_from_code(s[0]) {
            None => Err(ProtoError::UnknownFrameKind(s[0])),
            Some(k) => if s.len() < 5 {
                Err(ProtoError::UnexpectedEof)
            } else {
                Ok((k, le_value(s.subrange(1, 5)) as u32))
            },
        }
    }
}

/// Reads a frame header and returns `(kind, len)`; the payload follows at
/// offset `FRAME_HEADER_LEN`.
pub fn read_frame_header(input: &[u8]) -> (r: Result<(FrameKind, u32), ProtoError>)
    ensures
        r == frame_header_result(input@),
{
    if input.len() < 1 {
        return Err(ProtoError::UnexpectedEof);
    }
    let kind = FrameKind::from_u8(input[0])?;
    if input.len() < 5 {
        return Err(ProtoError::UnexpectedEof);
    }
    let len = read_le(input, 1, 4);
    proof {
        lemma_pow256_values();
        lemma_le_value_bytes(input@.subrange(1, 5));
    }
    Ok((kind, len as u32))
}

/// Length of a frame header in bytes.
pub const FRAME_HEADER_LEN: usize = 5;

/// Reading the header of an encoded frame gives back its kind and the
/// payload length, and the payload follows the header unchanged.
pub proof fn law_frame_header_roundtrip(kind: FrameKind, payload: Seq<u8>)
    requires
        payload.len() <= u32::MAX,
    ensures
        frame_header_result(frame_bytes(kind, payload)) == Ok::<(FrameKind, u32), ProtoError>(
            (kind, payload.len() as u32),
        ),
        frame_bytes(kind, payload).subrange(5, frame_bytes(kind, payload).len() as int) == payload,
{
    lemma_pow256_values();
    lemma_le_roundtrip(payload.len(), 4);
    let f = frame_bytes(kind, payload);
    assert(f.subrange(1, 5) =~= le_bytes(payload.len(), 4));
    assert(f.subrange(5, f.len() as int) =~= payload);
}

/// A written prelude is accepted by the reader.
pub proof fn law_prelude_roundtrip(rest: Seq<u8>)
    ensures
        prelude_result(prelude_bytes() + rest) == Ok::<(), ProtoError>(()),
{
    lemma_pow256_values();
    lemma_le_roundtrip(VERSION as nat, 2);
    let s = prelude_bytes() + rest;
    assert(s.subrange(0, 4) =~= magic_bytes());
    assert(s.subrange(4, 6) =~= le_bytes(VERSION as nat, 2));
}


/// How a decoded string result relates to its specification.
pub open spec fn string_result_is(r: Result<String, ProtoError>, spec: Result<Seq<char>, ProtoError>) -> bool {
    match r {
        Ok(s) => spec == Ok::<Seq<char>, ProtoError>(s@),
        Err(e) => spec == Err::<Seq<char>, ProtoError>(e),
    }
}

/// A length-prefixed byte string: `u16` LE length, then the bytes.
pub open spec fn prefixed(bytes: Seq<u8>) -> Seq<u8> {
    le_bytes(bytes.len(), 2) + bytes
}

/// `BEGIN_FILE` payload for an extension: `u16` LE byte length + UTF-8 bytes.
pub open spec fn begin_file_bytes(ext: Seq<char>) -> Seq<u8> {
    prefixed(encode_utf8(ext))
}

/// Outcome of decoding a `BEGIN_FILE` payload.
pub open spec fn begin_file_result(p: Seq<u8>) -> Result<Seq<char>, ProtoError> {
    if p.len() < 2 {
        Err(ProtoError::ShortBeginFile)
    } else if p.len() - 2 != le_value(p.subrange(0, 2)) {
        Err(ProtoError::BeginFileLengthMismatch)
    } else if !valid_utf8(p.subrange(2, p.len() as int)) {
        Err(ProtoError::ExtensionNotUtf8)
    } else {
        Ok(decode_utf8(p.subrange(2, p.len() as int)))
    }
}

/// Appends `u16` LE length + bytes of `s`; the length must fit in `u16`.
fn push_prefixed_str(out: &mut Vec<u8>, s: &str)
    requires
        encode_utf8(s@).len() <= 0xffff,
    ensures
        final(out)@ == old(out)@ + prefixed(encode_utf8(s@)),
{
    let bytes = s.as_bytes();
    proof {
        lemma_pow256_values();
    }
    push_le(out, bytes.len() as u64, 2);
    push_all(out, bytes);
    assert(final(out)@ =~= old(out)@ + prefixed(encode_utf8(s@)));
}

/// Encodes a `BEGIN_FILE` payload: `u16 ext_len` + UTF-8 extension bytes.
pub fn encode_begin_file_payload(extension: &str) -> (r: Result<Vec<u8>, ProtoError>)
    ensures
        encode_utf8(extension@).len() > 0xffff ==> r == Err::<Vec<u8>, ProtoError>(
            ProtoError::ExtensionTooLong,
        ),
        encode_utf8(extension@).len() <= 0xffff ==> (r matches Ok(v) && v@ == begin_file_bytes(
            extension@,
        )),
{
    let bytes = extension.as_bytes();
    if bytes.len() > 0xffff {
        return Err(ProtoError::ExtensionTooLong);
    }
    let mut out: Vec<u8> = Vec::new();
    push_prefixed_str(&mut out, extension);
    assert(out@ =~= begin_file_bytes(extension@));
    Ok(out)
}

/// Decodes a `BEGIN_FILE` payload, returning the extension (may be empty).
pub fn decode_begin_file_payload(payload: &[u8]) -> (r: Result<String, ProtoError>)
    ensures
        string_result_is(r, begin_file_result(payload@)),
{
    if payload.len() < 2 {
        return Err(ProtoError::ShortBeginFile);
    }
    let ext_len = read_le(payload, 0, 2);
    if (payload.len() - 2) as u64 != ext_len {
        return Err(ProtoError::BeginFileLengthMismatch);
    }
    let rest = crate::wire::slice_to_vec(payload, 2, payload.len());
    match utf8_to_string(rest.as_slice()) {
        Some(s) => Ok(s),
        None => Err(ProtoError::ExtensionNotUtf8),
    }
}

/// Decoding an encoded `BEGIN_FILE` payload gives the extension back.
pub proof fn law_begin_file_roundtrip(ext: Seq<char>)
    requires
        encode_utf8(ext).len() <= 0xffff,
    ensures
        begin_file_result(begin_file_bytes(ext)) == Ok::<Seq<char>, ProtoError>(ext),
{
    let b = encode_utf8(ext);
    let p = begin_file_bytes(ext);
    lemma_pow256_values();
    lemma_le_roundtrip(b.len(), 2);
    assert(p.subrange(0, 2) =~= le_bytes(b.len(), 2));
    assert(p.subrange(2, p.len() as int) =~= b);
    encode_utf8_valid_utf8(ext);
    encode_utf8_decode_utf8(ext);
}

/// `TRACK_INFO` payload: sample rate `u32` LE, channels `u16` LE, duration
/// in ms `u64` LE (0 means unknown).
pub open spec fn track_info_bytes(sample_rate: u32, channels: u16, duration_ms: Option<u64>) -> Seq<u8> {
    le_bytes(sample_rate as nat, 4) + le_bytes(channels as nat, 2) + le_bytes(
        match duration_ms {
            Some(d) => d as nat,
            None => 0,
        },
        8,
    )
}

/// Outcome of decoding a `TRACK_INFO` payload.
pub open spec fn track_info_result(p: Seq<u8>) -> Result<(u32, u16, Option<u64>), ProtoError> {
    if p.len() != 14 {
        Err(ProtoError::BadTrackInfoLength)
    } else {
        let d = le_value(p.subrange(6, 14));
        Ok(
            (
                le_value(p.subrange(0, 4)) as u32,
                le_value(p.subrange(4, 6)) as u16,
                if d == 0 {
                    None
                } else {
                    Some(d as u64)
                },
            ),
        )
    }
}

/// Encodes a `TRACK_INFO` payload.
pub fn encode_track_info(sample_rate: u32, channels: u16, duration_ms: Option<u64>) -> (r: Vec<u8>)
    ensures
        r@ == track_info_bytes(sample_rate, channels, duration_ms),
{
    let mut out: Vec<u8> = Vec::new();
    proof {
        lemma_pow256_values();
    }
    push_le(&mut out, sample_rate as u64, 4);
    push_le(&mut out, channels as u64, 2);
    let d: u64 = match duration_ms {
        Some(d) => d,
        None => 0,
    };
    push_le(&mut out, d, 8);
    assert(out@ =~= track_info_bytes(sample_rate, channels, duration_ms));
    out
}

/// Decodes a `TRACK_INFO` payload.
pub fn decode_track_info(payload: &[u8]) -> (r: Result<(u32, u16, Option<u64>), ProtoError>)
    ensures
        r == track_info_result(payload@),
{
    if payload.len() != 14 {
        return Err(ProtoError::BadTrackInfoLength);
    }
    let sr = read_le(payload, 0, 4);
    let ch = read_le(payload, 4, 2);
    let dur = read_le(payload, 6, 8);
    proof {
        lemma_pow256_values();
        lemma_le_value_bytes(payload@.subrange(0, 4));
        lemma_le_value_bytes(payload@.subrange(4, 6));
    }
    Ok((sr as u32, ch as u16, if dur == 0 { None } else { Some(dur) }))
}

/// Decoding an encoded `TRACK_INFO` payload gives back its fields; a known
/// duration of 0 reads back as unknown.
pub proof fn law_track_info_roundtrip(sample_rate: u32, channels: u16, duration_ms: Option<u64>)
    ensures
        track_info_result(track_info_bytes(sample_rate, channels, duration_ms)) == Ok::<
            (u32, u16, Option<u64>),
            ProtoError,
        >(
            (
                sample_rate,
                channels,
                if duration_ms == Some(0u64) {
                    None
                } else {
                    duration_ms
                },
            ),
        ),
{
    let d: nat = match duration_ms {
        Some(d) => d as nat,
        None => 0,
    };
    lemma_pow256_values();
    lemma_le_roundtrip(sample_rate as nat, 4);
    lemma_le_roundtrip(channels as nat, 2);
    lemma_le_roundtrip(d, 8);
    let p = track_info_bytes(sample_rate, channels, duration_ms);
    assert(p.subrange(0, 4) =~= le_bytes(sample_rate as nat, 4));
    assert(p.subrange(4, 6) =~= le_bytes(channels as nat, 2));
    assert(p.subrange(6, 14) =~= le_bytes(d, 8));
}

/// `PLAYBACK_POS` payload: played frames `u64` LE, then paused as 0/1.
pub open spec fn playback_pos_bytes(played_frames: u64, paused: bool) -> Seq<u8> {
    le_bytes(played_frames as nat, 8) + seq![if paused { 1u8 } else { 0u8 }]
}

/// Outcome of decoding a `PLAYBACK_POS` payload.
pub open spec fn playback_pos_result(p: Seq<u8>) -> Result<(u64, bool), ProtoError> {
    if p.len() != 9 {
        Err(ProtoError::BadPlaybackPosLength)
    } else {
        Ok((le_value(p.subrange(0, 8)) as u64, p[8] != 0))
    }
}

/// Encodes a `PLAYBACK_POS` payload.
pub fn encode_playback_pos(played_frames: u64, paused: bool) -> (r: Vec<u8>)
    ensures
        r@ == playback_pos_bytes(played_frames, paused),
{
    let mut out: Vec<u8> = Vec::new();
    proof {
        lemma_pow256_values();
    }
    push_le(&mut out, played_frames, 8);
    out.push(if paused { 1 } else { 0 });
    assert(out@ =~= playback_pos_bytes(played_frames, paused));
    out
}

/// Decodes a `PLAYBACK_POS` payload.
pub fn decode_playback_pos(payload: &[u8]) -> (r: Result<(u64, bool), ProtoError>)
    ensures
        r == playback_pos_result(payload@),
{
    if payload.len() != 9 {
        return Err(ProtoError::BadPlaybackPosLength);
    }
    let frames = read_le(payload, 0, 8);
    Ok((frames, payload[8] != 0))
}

/// Decoding an encoded `PLAYBACK_POS` payload gives back its fields.
pub proof fn law_playback_pos_roundtrip(played_frames: u64, paused: bool)
    ensures
        playback_pos_result(playback_pos_bytes(played_frames, paused)) == Ok::<(u64, bool), ProtoError>(
            (played_frames, paused),
        ),
{
    lemma_pow256_values();
    lemma_le_roundtrip(played_frames as nat, 8);
    let p = playback_pos_bytes(played_frames, paused);
    assert(p.subrange(0, 8) =~= le_bytes(played_frames as nat, 8));
}


/// Device-name entries, each a `u16` LE length + UTF-8 bytes.
pub open spec fn entries_bytes(names: Seq<Seq<char>>) -> Seq<u8>
    decreases names.len(),
{
    if names.len() == 0 {
        Seq::empty()
    } else {
        entries_bytes(names.drop_last()) + prefixed(encode_utf8(names.last()))
    }
}

/// Device list payload: `u16` LE count, then one entry per name.
pub open spec fn device_list_bytes(names: Seq<Seq<char>>) -> Seq<u8> {
    le_bytes(names.len(), 2) + entries_bytes(names)
}

/// Every name encodes to at most `u16::MAX` bytes.
pub open spec fn names_fit(names: Seq<Seq<char>>) -> bool {
    forall|i: int| 0 <= i < names.len() ==> #[trigger] encode_utf8(names[i]).len() <= 0xffff
}

/// Prepends `xs` to a successful parse, passes errors through.
pub open spec fn prepend_names(
    xs: Seq<Seq<char>>,
    r: Result<Seq<Seq<char>>, ProtoError>,
) -> Result<Seq<Seq<char>>, ProtoError> {
    match r {
        Ok(ys) => Ok(xs + ys),
        Err(e) => Err(e),
    }
}

/// Outcome of parsing `k` device-name entries from the start of `s`.
pub open spec fn parse_entries(s: Seq<u8>, k: nat) -> Result<Seq<Seq<char>>, ProtoError>
    decreases k,
{
    if k == 0 {
        Ok(Seq::empty())
    } else if s.len() < 2 {
        Err(ProtoError::TruncatedDeviceList)
    } else if 2 + le_value(s.subrange(0, 2)) > s.len() {
        Err(ProtoError::TruncatedDeviceName)
    } else {
        let l = le_value(s.subrange(0, 2)) as int;
        let name = s.subrange(2, 2 + l);
        if !valid_utf8(name) {
            Err(ProtoError::DeviceNameNotUtf8)
        } else {
            prepend_names(
                seq![decode_utf8(name)],
                parse_entries(s.subrange(2 + l, s.len() as int), (k - 1) as nat),
            )
        }
    }
}

/// Outcome of decoding a device list payload (bytes after the last entry
/// are ignored).
pub open spec fn device_list_result(p: Seq<u8>) -> Result<Seq<Seq<char>>, ProtoError> {
    if p.len() < 2 {
        Err(ProtoError::ShortDeviceList)
    } else {
        parse_entries(p.subrange(2, p.len() as int), le_value(p.subrange(0, 2)))
    }
}

/// The views of a list of strings.
pub open spec fn string_views(v: Seq<String>) -> Seq<Seq<char>> {
    v.map_values(|s: String| s@)
}

/// Encodes a list of device names: `u16` count, then `u16` len + bytes for
/// each name.
pub fn encode_device_list(devices: &[String]) -> (r: Result<Vec<u8>, ProtoError>)
    ensures
        devices@.len() > 0xffff ==> r == Err::<Vec<u8>, ProtoError>(ProtoError::TooManyDevices),
        devices@.len() <= 0xffff && !names_fit(string_views(devices@)) ==> r == Err::<
            Vec<u8>,
            ProtoError,
        >(ProtoError::DeviceNameTooLong),
        devices@.len() <= 0xffff && names_fit(string_views(devices@)) ==> (r matches Ok(v) && v@
            == device_list_bytes(string_views(devices@))),
{
    let ghost views = string_views(devices@);
    if devices.len() > 0xffff {
        return Err(ProtoError::TooManyDevices);
    }
    let mut out: Vec<u8> = Vec::new();
    proof {
        lemma_pow256_values();
    }
    push_le(&mut out, devices.len() as u64, 2);
    let mut i: usize = 0;
    while i < devices.len()
        invariant
            i <= devices@.len() <= 0xffff,
            views == string_views(devices@),
            out@ == le_bytes(devices@.len() as nat, 2) + entries_bytes(views.take(i as int)),
            forall|j: int| 0 <= j < i ==> #[trigger] encode_utf8(views[j]).len() <= 0xffff,
        decreases devices@.len() - i,
    {
        let name = devices[i].as_str();
        let bytes = name.as_bytes();
        if bytes.len() > 0xffff {
            assert(encode_utf8(views[i as int]).len() > 0xffff);
            return Err(ProtoError::DeviceNameTooLong);
        }
        let ghost before = out@;
        push_prefixed_str(&mut out, name);
        assert(views.take(i + 1).drop_last() =~= views.take(i as int));
        assert(views.take(i + 1).last() == views[i as int]);
        assert(out@ =~= le_bytes(devices@.len() as nat, 2) + entries_bytes(views.take(i + 1)));
        i = i + 1;
    }
    assert(views.take(devices@.len() as int) =~= views);
    Ok(out)
}

/// Parsing continues from the remainder after one entry.
proof fn lemma_parse_step(s: Seq<u8>, k: nat, l: int)
    requires
        k > 0,
        s.len() >= 2,
        l == le_value(s.subrange(0, 2)),
        2 + l <= s.len(),
        valid_utf8(s.subrange(2, 2 + l)),
    ensures
        parse_entries(s, k) == prepend_names(
            seq![decode_utf8(s.subrange(2, 2 + l))],
            parse_entries(s.subrange(2 + l, s.len() as int), (k - 1) as nat),
        ),
{
}

/// Decodes a device list payload.
pub fn decode_device_list(payload: &[u8]) -> (r: Result<Vec<String>, ProtoError>)
    ensures
        match r {
            Ok(v) => device_list_result(payload@) == Ok::<Seq<Seq<char>>, ProtoError>(
                string_views(v@),
            ),
            Err(e) => device_list_result(payload@) == Err::<Seq<Seq<char>>, ProtoError>(e),
        },
{
    if payload.len() < 2 {
        return Err(ProtoError::ShortDeviceList);
    }
    let count = read_le(payload, 0, 2);
    let mut off: usize = 2;
    let mut out: Vec<String> = Vec::new();
    let mut i: u64 = 0;
    let ghost total = payload@.subrange(2, payload@.len() as int);
    while i < count
        invariant
            2 <= off <= payload@.len(),
            i <= count,
            count as nat == le_value(payload@.subrange(0, 2)),
            total == payload@.subrange(2, payload@.len() as int),
            parse_entries(total, count as nat) == prepend_names(
                string_views(out@),
                parse_entries(payload@.subrange(off as int, payload@.len() as int), (count - i) as nat),
            ),
        decreases count - i,
    {
        let ghost rest = payload@.subrange(off as int, payload@.len() as int);
        if payload.len() - off < 2 {
            return Err(ProtoError::TruncatedDeviceList);
        }
        let len = read_le(payload, off, 2);
        assert(payload@.subrange(off as int, off + 2) =~= rest.subrange(0, 2));
        if ((payload.len() - off - 2) as u64) < len {
            return Err(ProtoError::TruncatedDeviceName);
        }
        let len = len as usize;
        let name_bytes = crate::wire::slice_to_vec(payload, off + 2, off + 2 + len);
        assert(name_bytes@ =~= rest.subrange(2, 2 + len));
        let name = match utf8_to_string(name_bytes.as_slice()) {
            Some(n) => n,
            None => {
                return Err(ProtoError::DeviceNameNotUtf8);
            },
        };
        proof {
            lemma_parse_step(rest, (count - i) as nat, len as int);
            assert(rest.subrange(2 + len, rest.len() as int) =~= payload@.subrange(
                off + 2 + len,
                payload@.len() as int,
            ));
        }
        let ghost old_views = string_views(out@);
        out.push(name);
        assert(string_views(out@) =~= old_views + seq![decode_utf8(name_bytes@)]);
        off = off + 2 + len;
        i = i + 1;
        proof {
            let tail = parse_entries(payload@.subrange(off as int, payload@.len() as int), (count - i) as nat);
            match tail {
                Ok(ys) => {
                    assert(old_views + (seq![decode_utf8(name_bytes@)] + ys) =~= string_views(out@) + ys);
                },
                Err(e) => {},
            }
        }
    }
    assert(string_views(out@) + Seq::<Seq<char>>::empty() =~= string_views(out@));
    Ok(out)
}

/// `entries_bytes` seen from the front: the first entry, then the rest.
proof fn lemma_entries_front(names: Seq<Seq<char>>)
    requires
        names.len() > 0,
    ensures
        entries_bytes(names) == prefixed(encode_utf8(names[0])) + entries_bytes(names.drop_first()),
    decreases names.len(),
{
    if names.len() == 1 {
        assert(names.drop_last() =~= Seq::<Seq<char>>::empty());
        assert(names.drop_first() =~= Seq::<Seq<char>>::empty());
        assert(entries_bytes(names.drop_last()) == Seq::<u8>::empty());
        assert(entries_bytes(names.drop_first()) == Seq::<u8>::empty());
        assert(names.last() == names[0]);
        assert(entries_bytes(names) =~= prefixed(encode_utf8(names[0])) + entries_bytes(
            names.drop_first(),
        ));
    } else {
        lemma_entries_front(names.drop_last());
        assert(names.drop_last().drop_first() =~= names.drop_first().drop_last());
        assert(names.drop_first().last() == names.last());
        assert(names.drop_last()[0] == names[0]);
    }
}

/// Parsing the entries of well-sized names, whatever follows, gives the names.
proof fn lemma_parse_entries_roundtrip(names: Seq<Seq<char>>, rest: Seq<u8>)
    requires
        names_fit(names),
    ensures
        parse_entries(entries_bytes(names) + rest, names.len()) == Ok::<Seq<Seq<char>>, ProtoError>(
            names,
        ),
    decreases names.len(),
{
    if names.len() > 0 {
        lemma_entries_front(names);
        let b = encode_utf8(names[0]);
        let tail = names.drop_first();
        assert(names_fit(tail)) by {
            assert forall|i: int| 0 <= i < tail.len() implies #[trigger] encode_utf8(tail[i]).len()
                <= 0xffff by {
                assert(tail[i] == names[i + 1]);
            }
        }
        assert(encode_utf8(names[0]).len() <= 0xffff);
        lemma_parse_entries_roundtrip(tail, rest);
        let s = entries_bytes(names) + rest;
        lemma_pow256_values();
        lemma_le_roundtrip(b.len(), 2);
        assert(s =~= le_bytes(b.len(), 2) + b + (entries_bytes(tail) + rest));
        assert(s.subrange(0, 2) =~= le_bytes(b.len(), 2));
        assert(s.subrange(2, 2 + b.len() as int) =~= b);
        assert(s.subrange(2 + b.len() as int, s.len() as int) =~= entries_bytes(tail) + rest);
        encode_utf8_valid_utf8(names[0]);
        encode_utf8_decode_utf8(names[0]);
        assert(le_value(s.subrange(0, 2)) == b.len());
        lemma_parse_step(s, names.len(), b.len() as int);
        assert(tail.len() == (names.len() - 1) as nat);
        assert(seq![names[0]] + tail =~= names);
    } else {
        assert(names =~= Seq::<Seq<char>>::empty());
    }
}

/// Decoding an encoded device list gives the names back.
pub proof fn law_device_list_roundtrip(names: Seq<Seq<char>>)
    requires
        names.len() <= 0xffff,
        names_fit(names),
    ensures
        device_list_result(device_list_bytes(names)) == Ok::<Seq<Seq<char>>, ProtoError>(names),
{
    let p = device_list_bytes(names);
    lemma_pow256_values();
    lemma_le_roundtrip(names.len(), 2);
    assert(p.subrange(0, 2) =~= le_bytes(names.len(), 2));
    assert(p.subrange(2, p.len() as int) =~= entries_bytes(names) + Seq::<u8>::empty());
    lemma_parse_entries_roundtrip(names, Seq::empty());
}

/// Device selector payload: `u16` LE length + UTF-8 name.
pub open spec fn device_selector_bytes(name: Seq<char>) -> Seq<u8> {
    prefixed(encode_utf8(name))
}

/// Outcome of decoding a device selector payload.
pub open spec fn device_selector_result(p: Seq<u8>) -> Result<Seq<char>, ProtoError> {
    if p.len() < 2 {
        Err(ProtoError::ShortDeviceSelector)
    } else if p.len() != 2 + le_value(p.subrange(0, 2)) {
        Err(ProtoError::DeviceSelectorLengthMismatch)
    } else if !valid_utf8(p.subrange(2, p.len() as int)) {
        Err(ProtoError::DeviceSelectorNotUtf8)
    } else {
        Ok(decode_utf8(p.subrange(2, p.len() as int)))
    }
}

/// Encodes a device selector string: `u16` len + bytes.
pub fn encode_device_selector(name: &str) -> (r: Result<Vec<u8>, ProtoError>)
    ensures
        encode_utf8(name@).len() > 0xffff ==> r == Err::<Vec<u8>, ProtoError>(
            ProtoError::DeviceNameTooLong,
        ),
        encode_utf8(name@).len() <= 0xffff ==> (r matches Ok(v) && v@ == device_selector_bytes(
            name@,
        )),
{
    let bytes = name.as_bytes();
    if bytes.len() > 0xffff {
        return Err(ProtoError::DeviceNameTooLong);
    }
    let mut out: Vec<u8> = Vec::new();
    push_prefixed_str(&mut out, name);
    assert(out@ =~= device_selector_bytes(name@));
    Ok(out)
}

/// Decodes a device selector string.
pub fn decode_device_selector(payload: &[u8]) -> (r: Result<String, ProtoError>)
    ensures
        string_result_is(r, device_selector_result(payload@)),
{
    if payload.len() < 2 {
        return Err(ProtoError::ShortDeviceSelector);
    }
    let len = read_le(payload, 0, 2);
    if (payload.len() - 2) as u64 != len {
        return Err(ProtoError::DeviceSelectorLengthMismatch);
    }
    let rest = crate::wire::slice_to_vec(payload, 2, payload.len());
    match utf8_to_string(rest.as_slice()) {
        Some(s) => Ok(s),
        None => Err(ProtoError::DeviceSelectorNotUtf8),
    }
}

/// Decoding an encoded device selector gives the name back.
pub proof fn law_device_selector_roundtrip(name: Seq<char>)
    requires
        encode_utf8(name).len() <= 0xffff,
    ensures
        device_selector_result(device_selector_bytes(name)) == Ok::<Seq<char>, ProtoError>(name),
{
    let b = encode_utf8(name);
    let p = device_selector_bytes(name);
    lemma_pow256_values();
    lemma_le_roundtrip(b.len(), 2);
    assert(p.subrange(0, 2) =~= le_bytes(b.len(), 2));
    assert(p.subrange(2, p.len() as int) =~= b);
    encode_utf8_valid_utf8(name);
    encode_utf8_decode_utf8(name);
}

} // verus!
