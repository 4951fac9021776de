//! Encoder configuration and, per platform, the codec that can be published
//! and the path frames take to the media server.

pub mod linux;
pub mod stub;
pub mod videotoolbox;
pub mod windows;
pub mod annexb;

use std::sync::atomic::AtomicU64;
use vstd::prelude::*;
use crate::stream::{StreamCodec, StreamMode};

verus! {

/// How frames reach the media server: through our own encoder as
/// pre-encoded data, or raw for the media library to encode.
#[derive(Clone, Copy, PartialEq, Eq, Structural, Debug)]
pub enum PublishPath {
    PreEncoded,
    Raw,
}

#[derive(Clone, Copy, PartialEq, Eq, Debug)]
pub struct EncoderConfig {
    pub width: u32,
    pub height: u32,
    pub fps: u16,
    pub codec: StreamCodec,
    pub bitrate_kbps: u32,
    pub mode: StreamMode,
}

/// Running totals of an encoder, shared with the statistics reader.
#[derive(Default, Debug)]
pub struct EncoderCounters {
    pub submitted: AtomicU64,
    pub encoded: AtomicU64,
    pub keyframes: AtomicU64,
    pub dropped: AtomicU64,
    pub errors: AtomicU64,
    pub bytes: AtomicU64,
    pub latency_ns_sum: AtomicU64,
    pub latency_ns_max: AtomicU64,
    pub applied_bps: AtomicU64,
    pub rate_requests: AtomicU64,
    pub keyframe_requests: AtomicU64,
    pub captured_ok: AtomicU64,
    pub captured_rejected: AtomicU64,
}

} // verus!
