//! Windows: only H.264 is encodable. Frames go pre-encoded through the
//! hardware encoder when one is present, raw otherwise; an override naming
//! one path wins over the probe.

use vstd::prelude::*;
use crate::encode::{EncoderConfig, PublishPath};
use crate::stream::{StreamCodec, StreamMode};
use crate::text::{chars_of, ascii_lower_seq};

verus! {

pub fn clamp_codec(codec: StreamCodec) -> (r: StreamCodec)
    ensures
        r == StreamCodec::H264,
{
    StreamCodec::H264
}

/// The path that an override value names, compared without regard to ASCII
/// case: "raw", "libwebrtc" or "software" for raw frames, "mf",
/// "mediafoundation" or "hardware" for the hardware encoder.
pub open spec fn spec_forced_path(value: Seq<char>) -> Option<PublishPath> {
    let v = ascii_lower_seq(value);
    if v == "raw"@ || v == "libwebrtc"@ || v == "software"@ {
        Some(PublishPath::Raw)
    } else if v == "mf"@ || v == "mediafoundation"@ || v == "hardware"@ {
        Some(PublishPath::PreEncoded)
    } else {
        None
    }
}

fn eq_lit(v: &Vec<char>, lit: &str) -> (r: bool)
    ensures
        r == (v@ == lit@),
{
    let l = chars_of(lit);
    if v.len() != l.len() {
        return false;
    }
    let mut i: usize = 0;
    while i < v.len()
        invariant
            v@.len() == l@.len(),
            l@ == lit@,
            0 <= i <= v@.len(),
            forall|k: int| 0 <= k < i ==> v@[k] == l@[k],
        decreases v@.len() - i,
    {
        if v[i] != l[i] {
            return false;
        }
        i = i + 1;
    }
    assert(v@ =~= l@);
    true
}

/// The path that the encoder override names, if any.
pub fn forced_path(value: &str) -> (r: Option<PublishPath>)
    ensures
        r == spec_forced_path(value@),
{
    let cs = chars_of(value);
    let mut lower: Vec<char> = Vec::new();
    let mut i: usize = 0;
    while i < cs.len()
        invariant
            cs@ == value@,
            0 <= i <= cs@.len(),
            lower@ == ascii_lower_seq(cs@.take(i as int)),
        decreases cs@.len() - i,
    {
        lower.push(crate::text::ascii_lower(cs[i]));
        assert(cs@.take(i + 1).drop_last() == cs@.take(i as int));
        i = i + 1;
    }
    assert(cs@.take(cs@.len() as int) == cs@);
    if eq_lit(&lower, "raw") || eq_lit(&lower, "libwebrtc") || eq_lit(&lower, "software") {
        Some(PublishPath::Raw)
    } else if eq_lit(&lower, "mf") || eq_lit(&lower, "mediafoundation") || eq_lit(&lower, "hardware") {
        Some(PublishPath::PreEncoded)
    } else {
        None
    }
}

/// The publish path from the override value (empty when unset) and whether a
/// hardware H.264 encoder is present: the override when it names a path,
/// otherwise the hardware encoder when present and raw frames when not.
pub fn publish_path(cfg: &EncoderConfig, override_value: &str, hardware_present: bool) -> (r: PublishPath)
    ensures
        r == (match spec_forced_path(override_value@) {
            Some(p) => p,
            None => if hardware_present {
                PublishPath::PreEncoded
            } else {
                PublishPath::Raw
            },
        }),
{
    if let Some(forced) = forced_path(override_value) {
        return forced;
    }
    if hardware_present {
        PublishPath::PreEncoded
    } else {
        PublishPath::Raw
    }
}

/// Two 32-bit halves packed high then low into one word.
pub fn pack2(a: u32, b: u32) -> (r: u64)
    ensures
        r == a as int * 0x1_0000_0000 + b as int,
{
    let hi = a as u64;
    let lo = b as u64;
    assert(((hi << 32u64) | lo) == hi * 0x1_0000_0000 + lo) by (bit_vector)
        requires
            hi < 0x1_0000_0000,
            lo < 0x1_0000_0000,
    ;
    (hi << 32) | lo
}

/// Keyframes at least this often, in frames (the GOP size).
pub const KEYFRAME_INTERVAL: u32 = 240;

/// The H.264 profile the hardware encoder is asked for.
#[derive(Clone, Copy, PartialEq, Eq, Structural, Debug)]
pub enum H264Profile {
    Main,
    High,
}

/// What the hardware encoder's media types and codec settings carry besides
/// the NV12 input, progressive frames, square pixels, low latency and
/// constant bitrate.
#[derive(Clone, Copy, PartialEq, Eq, Structural, Debug)]
pub struct MfSettings {
    /// The average (and mean) bitrate, in bits per second.
    pub bitrate_bps: u32,
    /// Width above, height below.
    pub frame_size: u64,
    /// Frames per second above, 1 below.
    pub frame_rate: u64,
    pub profile: H264Profile,
    pub gop_size: u32,
}

/// The settings of the hardware encoder for `cfg`: a bitrate and frame rate
/// of at least 1, the Main profile for game streams and High otherwise.
pub fn mf_settings(cfg: &EncoderConfig) -> (r: MfSettings)
    requires
        cfg.bitrate_kbps <= 4_294_967,
    ensures
        r.bitrate_bps == (if cfg.bitrate_kbps == 0 {
            1
        } else {
            cfg.bitrate_kbps as int
        }) * 1000,
        r.frame_size == cfg.width as int * 0x1_0000_0000 + cfg.height as int,
        r.frame_rate == (if cfg.fps == 0 {
            1
        } else {
            cfg.fps as int
        }) * 0x1_0000_0000 + 1,
        r.profile == (if cfg.mode == StreamMode::Game {
            H264Profile::Main
        } else {
            H264Profile::High
        }),
        r.gop_size == 240,
{
    let kbps = if cfg.bitrate_kbps == 0 {
        1
    } else {
        cfg.bitrate_kbps
    };
    let fps: u32 = if cfg.fps == 0 {
        1
    } else {
        cfg.fps as u32
    };
    MfSettings {
        bitrate_bps: kbps * 1000,
        frame_size: pack2(cfg.width, cfg.height),
        frame_rate: pack2(fps, 1),
        profile: if cfg.mode == StreamMode::Game {
            H264Profile::Main
        } else {
            H264Profile::High
        },
        gop_size: KEYFRAME_INTERVAL,
    }
}

/// The NAL unit type of the first unit of an Annex B stream: the low five
/// bits of the byte after a four- or three-byte start code.
pub open spec fn first_nal_type(data: Seq<u8>) -> Option<int> {
    if data.len() >= 4 && data[0] == 0 && data[1] == 0 && data[2] == 0 && data[3] == 1 {
        if data.len() > 4 {
            Some(data[4] as int % 32)
        } else {
            None
        }
    } else if data.len() >= 3 && data[0] == 0 && data[1] == 0 && data[2] == 1 {
        if data.len() > 3 {
            Some(data[3] as int % 32)
        } else {
            None
        }
    } else {
        None
    }
}

/// Whether encoded data opens with a sequence or picture parameter set
/// (NAL types 7 and 8).
pub fn starts_with_parameter_set(data: &[u8]) -> (r: bool)
    ensures
        r == (first_nal_type(data@) == Some(7int) || first_nal_type(data@) == Some(8int)),
{
    let nal: Option<u8> = if data.len() >= 4 && data[0] == 0 && data[1] == 0 && data[2] == 0 && data[3] == 1 {
        if data.len() > 4 {
            Some(data[4])
        } else {
            None
        }
    } else if data.len() >= 3 && data[0] == 0 && data[1] == 0 && data[2] == 1 {
        if data.len() > 3 {
            Some(data[3])
        } else {
            None
        }
    } else {
        return false;
    };
    match nal {
        Some(b) => {
            assert(b & 0x1fu8 == b % 32) by (bit_vector);
            let t = b & 0x1f;
            t == 7 || t == 8
        },
        None => false,
    }
}

/// The payload sent for an encoded frame: a keyframe that does not open
/// with its parameter sets gets the stored sequence header in front (some
/// hardware encoders keep it only there); any other frame goes as it is.
pub fn frame_payload(keyframe: bool, sequence_header: &[u8], data: &[u8]) -> (r: Vec<u8>)
    ensures
        r@ == if keyframe && sequence_header@.len() > 0 && !(first_nal_type(data@) == Some(7int)
            || first_nal_type(data@) == Some(8int)) {
            sequence_header@ + data@
        } else {
            data@
        },
{
    let mut out: Vec<u8> = Vec::new();
    if keyframe && sequence_header.len() > 0 && !starts_with_parameter_set(data) {
        let mut i: usize = 0;
        while i < sequence_header.len()
            invariant
                0 <= i <= sequence_header@.len(),
                out@ == sequence_header@.take(i as int),
            decreases sequence_header@.len() - i,
        {
            out.push(sequence_header[i]);
            assert(sequence_header@.take(i + 1) =~= sequence_header@.take(i as int).push(sequence_header@[i as int]));
            i = i + 1;
        }
        assert(sequence_header@.take(sequence_header@.len() as int) =~= sequence_header@);
    }
    let ghost front = out@;
    let mut j: usize = 0;
    while j < data.len()
        invariant
            0 <= j <= data@.len(),
            out@ == front + data@.take(j as int),
        decreases data@.len() - j,
    {
        out.push(data[j]);
        assert(data@.take(j + 1) =~= data@.take(j as int).push(data@[j as int]));
        j = j + 1;
    }
    assert(data@.take(data@.len() as int) =~= data@);
    assert(front + data@ =~= front + data@);
    out
}

} // verus!
