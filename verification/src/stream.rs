//! Screen-share requests, sources and errors, and the geometry of a share.

use vstd::prelude::*;
use crate::bitrate::{Codec, StreamingPolicy};
use crate::text::{
    seq_contains, occurs_at, ascii_lower_seq, chars_of, str_contains, find_from, lower_chars,
};

verus! {

#[derive(Clone, PartialEq, Eq, Structural, Debug)]
pub enum SourceId {
    Display { id: u32 },
    Window { id: u32 },
    Synthetic { width: u32, height: u32 },
}

#[derive(Clone, Debug)]
pub struct StreamSource {
    pub id: SourceId,
    pub title: String,
    pub app_name: Option<String>,
    pub width: u32,
    pub height: u32,
    pub thumbnail: Option<String>,
}

#[derive(Clone, Debug)]
pub struct AudioApp {
    pub pid: i32,
    pub name: String,
    pub bundle_id: String,
}

#[derive(Clone, Debug, Default)]
pub struct StreamSources {
    pub displays: Vec<StreamSource>,
    pub windows: Vec<StreamSource>,
    pub apps: Vec<AudioApp>,
    pub app_audio_supported: bool,
    pub system_audio_supported: bool,
}

#[derive(Clone, Copy, PartialEq, Eq, Structural, Debug)]
pub enum AudioMode {
    Off,
    App { pid: i32 },
    System,
}

impl Default for AudioMode {
    fn default() -> (r: Self)
        ensures
            r == AudioMode::Off,
    {
        AudioMode::Off
    }
}

#[derive(Clone, Copy, PartialEq, Eq, Structural, Debug)]
pub enum StreamMode {
    Text,
    Game,
}

impl Default for StreamMode {
    fn default() -> (r: Self)
        ensures
            r == StreamMode::Text,
    {
        StreamMode::Text
    }
}

#[derive(Clone, Copy, PartialEq, Eq, Structural, Debug)]
pub enum StreamCodec {
    H264,
    H265,
}

/// H.265 stays H.265; every other codec is published as H.264.
pub open spec fn stream_codec_of(c: Codec) -> StreamCodec {
    match c {
        Codec::H265 => StreamCodec::H265,
        _ => StreamCodec::H264,
    }
}

impl From<Codec> for StreamCodec {
    fn from(c: Codec) -> (r: Self) {
        match c {
            Codec::H265 => StreamCodec::H265,
            _ => StreamCodec::H264,
        }
    }
}

impl vstd::std_specs::convert::FromSpecImpl<Codec> for StreamCodec {
    open spec fn obeys_from_spec() -> bool {
        true
    }

    open spec fn from_spec(c: Codec) -> StreamCodec {
        stream_codec_of(c)
    }
}

/// A request to start sharing.
#[derive(Clone, Debug)]
pub struct StreamRequest {
    pub source: SourceId,
    pub fps: u16,
    pub height: Option<u16>,
    pub audio: AudioMode,
    pub bitrate_kbps: Option<u32>,
    pub mode: StreamMode,
    pub cursor: bool,
    pub policy: StreamingPolicy,
}

/// The cursor is captured unless the request says otherwise.
pub fn default_cursor() -> (r: bool)
    ensures
        r,
{
    true
}

/// What a share was actually started with.
#[derive(Clone, Copy, PartialEq, Eq, Debug)]
pub struct ResolvedStream {
    pub width: u32,
    pub height: u32,
    pub fps: u16,
    pub bitrate_kbps: u32,
    pub codec: StreamCodec,
    pub mode: StreamMode,
    pub audio: AudioMode,
}

/// `x` rounded down to an even number.
pub open spec fn even_floor(x: int) -> int {
    x - x % 2
}

pub open spec fn max2(x: int) -> int {
    if x < 2 {
        2
    } else {
        x
    }
}

/// The share's size: the requested height when it is below the native one
/// (never upscaled), the width scaled to keep the native aspect ratio, both at
/// least 2 and rounded down to even numbers.
pub open spec fn spec_geometry(native_w: u32, native_h: u32, requested_height: Option<u16>) -> (int, int) {
    let nh = max2(native_h as int);
    let nw = max2(native_w as int);
    let th = match requested_height {
        Some(h) if (h as int) < nh => h as int,
        _ => nh,
    };
    let tw = nw * th / nh;
    (even_floor(max2(tw)), even_floor(max2(th)))
}

pub fn resolve_geometry(native_w: u32, native_h: u32, requested_height: Option<u16>) -> (r: (u32, u32))
    ensures
        (r.0 as int, r.1 as int) == spec_geometry(native_w, native_h, requested_height),
{
    let native_h = if native_h < 2 {
        2
    } else {
        native_h
    };
    let native_w = if native_w < 2 {
        2
    } else {
        native_w
    };
    let target_h = match requested_height {
        Some(h) if (h as u32) < native_h => h as u32,
        _ => native_h,
    };
    assert(native_w as u64 * target_h as u64 <= native_w as u64 * native_h as u64) by (nonlinear_arith)
        requires
            target_h <= native_h,
    ;
    assert(native_w as u64 * native_h as u64 <= u64::MAX) by (nonlinear_arith);
    let prod = native_w as u64 * target_h as u64;
    let tw64 = prod / native_h as u64;
    assert(tw64 <= native_w) by (nonlinear_arith)
        requires
            tw64 == prod / native_h as u64,
            prod == native_w * target_h,
            target_h <= native_h,
            native_h >= 2,
    ;
    let target_w = tw64 as u32;
    let w = if target_w < 2 {
        2
    } else {
        target_w
    };
    let h = if target_h < 2 {
        2
    } else {
        target_h
    };
    assert(w & !1u32 == w - w % 2) by (bit_vector);
    assert(h & !1u32 == h - h % 2) by (bit_vector);
    (w & !1u32, h & !1u32)
}

/// Shares are never upscaled and always have even, non-zero sides.
pub proof fn lemma_geometry_never_upscales(native_w: u32, native_h: u32, requested_height: Option<u16>)
    ensures
        ({
            let (w, h) = spec_geometry(native_w, native_h, requested_height);
            &&& h <= max2(native_h as int)
            &&& w <= max2(native_w as int)
            &&& w % 2 == 0 && h % 2 == 0
            &&& w >= 2 && h >= 2
        }),
{
    let nh = max2(native_h as int);
    let nw = max2(native_w as int);
    let th = match requested_height {
        Some(h) if (h as int) < nh => h as int,
        _ => nh,
    };
    assert(nw * th <= nw * nh) by (nonlinear_arith)
        requires
            0 <= th <= nh,
            nw >= 2,
    ;
    vstd::arithmetic::div_mod::lemma_div_is_ordered(nw * th, nw * nh, nh);
    vstd::arithmetic::div_mod::lemma_div_by_multiple(nw, nh);
    assert(nw * th >= 0) by (nonlinear_arith)
        requires
            0 <= th,
            nw >= 2,
    ;
}

/// Why a share could not start or went away.
#[derive(Clone, PartialEq, Eq, Debug)]
pub enum StreamError {
    Permission,
    Unsupported,
    SourceGone,
    Capture(String),
    Encoder(String),
    NotStreaming,
    NoSuchStream,
    Viewer(String),
    NotConnected,
}

pub open spec fn stream_error_code(e: StreamError) -> &'static str {
    match e {
        StreamError::Permission => "ERR_SCREEN_PERMISSION",
        StreamError::Unsupported => "ERR_STREAM_UNSUPPORTED",
        StreamError::SourceGone => "ERR_STREAM_SOURCE_GONE",
        StreamError::Capture(_) => "ERR_STREAM_CAPTURE_FAILED",
        StreamError::Encoder(_) => "ERR_STREAM_ENCODER_FAILED",
        StreamError::NotStreaming => "ERR_STREAM_NOT_STREAMING",
        StreamError::NoSuchStream => "ERR_STREAM_NOT_FOUND",
        StreamError::Viewer(_) => "ERR_STREAM_VIEWER_FAILED",
        StreamError::NotConnected => "ERR_VOICE_NOT_CONNECTED",
    }
}

impl StreamError {
    /// The code that the interface shows for the error.
    pub fn code(&self) -> (r: &'static str)
        ensures
            r == stream_error_code(*self),
    {
        match self {
            StreamError::Permission => "ERR_SCREEN_PERMISSION",
            StreamError::Unsupported => "ERR_STREAM_UNSUPPORTED",
            StreamError::SourceGone => "ERR_STREAM_SOURCE_GONE",
            StreamError::Capture(_) => "ERR_STREAM_CAPTURE_FAILED",
            StreamError::Encoder(_) => "ERR_STREAM_ENCODER_FAILED",
            StreamError::NotStreaming => "ERR_STREAM_NOT_STREAMING",
            StreamError::NoSuchStream => "ERR_STREAM_NOT_FOUND",
            StreamError::Viewer(_) => "ERR_STREAM_VIEWER_FAILED",
            StreamError::NotConnected => "ERR_VOICE_NOT_CONNECTED",
        }
    }
}

#[derive(Clone, Copy, PartialEq, Eq, Structural, Debug)]
pub enum WatchState {
    Connecting,
    Playing,
    Ended,
}

/// The codec a share at `height` (capped at the largest `u16`) and `fps`
/// publishes under the policy.
pub fn codec_from_policy(policy: &StreamingPolicy, height: u32, fps: u16) -> (r: StreamCodec)
    ensures
        r == stream_codec_of(
            if policy.allow_h265 && height >= 2160 && fps > 60 {
                Codec::H265
            } else {
                policy.preferred_codec
            },
        ),
{
    let h: u16 = if height > 65535 {
        65535
    } else {
        height as u16
    };
    match policy.codec_for(h, fps) {
        Codec::H265 => StreamCodec::H265,
        _ => StreamCodec::H264,
    }
}

/// The codec that an RTP codec's MIME type names: H.265 where it holds
/// `265` or, in any case, `hevc`; H.264 where it holds `264`; none
/// otherwise.
pub open spec fn codec_of_mime_spec(mime: Seq<char>) -> Option<StreamCodec> {
    if seq_contains(mime, "265"@) || seq_contains(ascii_lower_seq(mime), "hevc"@) {
        Some(StreamCodec::H265)
    } else if seq_contains(mime, "264"@) {
        Some(StreamCodec::H264)
    } else {
        None
    }
}

/// The codec that an RTP codec's MIME type names, as the share statistics
/// report it.
pub fn codec_of_mime(mime: &str) -> (r: Option<StreamCodec>)
    ensures
        r == codec_of_mime_spec(mime@),
{
    let cs = chars_of(mime);
    let lower = lower_chars(cs.as_slice());
    let hevc = chars_of("hevc");
    if str_contains(mime, "265") || find_from(lower.as_slice(), hevc.as_slice(), 0).is_some() {
        proof {
            if !seq_contains(mime@, "265"@) {
                let k = choose|k: int| occurs_at(lower@, hevc@, k);
                assert(occurs_at(ascii_lower_seq(mime@), "hevc"@, k));
            }
        }
        Some(StreamCodec::H265)
    } else if str_contains(mime, "264") {
        Some(StreamCodec::H264)
    } else {
        None
    }
}

/// Whether the encoder name that the media library reports is kept: not
/// when it is empty or names the pass-through (in any case), where the
/// encoder that ran is the library's own.
pub fn keeps_reported_encoder(reported: &str) -> (r: bool)
    ensures
        r == (reported@.len() > 0 && !seq_contains(ascii_lower_seq(reported@), "passthrough"@)),
{
    let cs = chars_of(reported);
    if cs.len() == 0 {
        return false;
    }
    let lower = lower_chars(cs.as_slice());
    let pass = chars_of("passthrough");
    match find_from(lower.as_slice(), pass.as_slice(), 0) {
        Some(k) => {
            assert(occurs_at(ascii_lower_seq(reported@), "passthrough"@, k as int));
            false
        },
        None => {
            assert(!seq_contains(ascii_lower_seq(reported@), "passthrough"@));
            true
        },
    }
}

} // verus!
