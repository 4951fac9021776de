//! macOS: VideoToolbox encodes both codecs in hardware and frames go
//! pre-encoded; the settings a compression session is given.

use vstd::prelude::*;
use crate::encode::{EncoderConfig, PublishPath};
use crate::stream::{StreamCodec, StreamMode};

verus! {

pub fn clamp_codec(codec: StreamCodec) -> (r: StreamCodec)
    ensures
        r == codec,
{
    codec
}

pub fn publish_path(cfg: &EncoderConfig) -> (r: PublishPath)
    ensures
        r == PublishPath::PreEncoded,
{
    PublishPath::PreEncoded
}

/// Keyframes at least this often, in frames.
pub const KEYFRAME_INTERVAL: i32 = 240;

/// The profile a compression session is asked for, the level left to the
/// encoder.
#[derive(Clone, Copy, PartialEq, Eq, Structural, Debug)]
pub enum VtProfile {
    H264HighAutoLevel,
    HevcMainAutoLevel,
}

/// What a compression session is configured with besides real-time mode,
/// no frame reordering and the frame rate.
#[derive(Clone, Copy, PartialEq, Eq, Structural, Debug)]
pub struct VtSettings {
    /// The average bitrate, in bits per second.
    pub average_bps: u64,
    /// The hard limit, in bytes per one-second window.
    pub bytes_per_second_limit: u64,
    pub profile: VtProfile,
    pub max_keyframe_interval: i32,
    /// CABAC entropy coding, which only H.264 is switched to.
    pub cabac: bool,
    /// Encoding speed before quality, for game streams.
    pub prioritize_speed: bool,
}

/// The data-rate limit for an average of `bps` bits per second: half again
/// as many bytes per second as the average carries.
pub fn data_rate_limit(bps: u64) -> (r: u64)
    ensures
        r == bps / 8 * 3 / 2,
{
    bps / 8 * 3 / 2
}

/// The settings of a compression session for `cfg`.
pub fn session_settings(cfg: &EncoderConfig) -> (r: VtSettings)
    ensures
        r.average_bps == cfg.bitrate_kbps * 1000,
        r.bytes_per_second_limit == cfg.bitrate_kbps * 1000 / 8 * 3 / 2,
        r.profile == (if cfg.codec == StreamCodec::H264 {
            VtProfile::H264HighAutoLevel
        } else {
            VtProfile::HevcMainAutoLevel
        }),
        r.max_keyframe_interval == 240,
        r.cabac == (cfg.codec == StreamCodec::H264),
        r.prioritize_speed == (cfg.mode == StreamMode::Game),
{
    let bps = cfg.bitrate_kbps as u64 * 1000;
    let profile = match cfg.codec {
        StreamCodec::H264 => VtProfile::H264HighAutoLevel,
        StreamCodec::H265 => VtProfile::HevcMainAutoLevel,
    };
    VtSettings {
        average_bps: bps,
        bytes_per_second_limit: data_rate_limit(bps),
        profile,
        max_keyframe_interval: KEYFRAME_INTERVAL,
        cabac: cfg.codec == StreamCodec::H264,
        prioritize_speed: cfg.mode == StreamMode::Game,
    }
}

} // verus!
