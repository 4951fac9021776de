//! The instance's streaming policy: preset resolutions and frame rates, the
//! bitrate matrix at the presets, and the limits on custom bitrates.

pub mod overrides;

use vstd::prelude::*;
use crate::bitrate::overrides::{BitrateOverrides, lookup};
use crate::text::{dec_digits, decimal, string_of};

verus! {

/// Preset stream heights, ascending.
pub open spec fn resolutions() -> Seq<u16> {
    seq![540u16, 720, 1080, 1440, 2160]
}

/// Preset frame rates, ascending.
pub open spec fn framerates() -> Seq<u16> {
    seq![15u16, 30, 60, 90, 120, 144]
}

/// The preset stream heights, ascending.
pub fn resolution_presets() -> (r: Vec<u16>)
    ensures
        r@ == resolutions(),
{
    let r = vec![540u16, 720, 1080, 1440, 2160];
    assert(r@ =~= resolutions());
    r
}

/// The preset frame rates, ascending.
pub fn framerate_presets() -> (r: Vec<u16>)
    ensures
        r@ == framerates(),
{
    let r = vec![15u16, 30, 60, 90, 120, 144];
    assert(r@ =~= framerates());
    r
}

/// The 16:9 width of a height: the standard width at the presets, otherwise
/// `height * 16 / 9` rounded down to an even number.
pub open spec fn spec_width_for_height(height: u16) -> int {
    if height == 540 {
        960
    } else if height == 720 {
        1280
    } else if height == 1080 {
        1920
    } else if height == 1440 {
        2560
    } else if height == 2160 {
        3840
    } else {
        let w = height as int * 16 / 9;
        (w - w % 2) % 65536
    }
}

pub fn width_for_height(height: u16) -> (r: u16)
    ensures
        r == spec_width_for_height(height),
{
    match height {
        540 => 960,
        720 => 1280,
        1080 => 1920,
        1440 => 2560,
        2160 => 3840,
        h => {
            let w = h as u32 * 16 / 9;
            let m = w & !1u32;
            assert(m == w - w % 2) by (bit_vector)
                requires
                    m == w & !1u32,
            ;
            assert((m as u16) == m % 65536) by (bit_vector);
            m as u16
        },
    }
}

/// The kbps at 30 fps of a preset height.
pub open spec fn base_kbps(height: u16) -> Option<int> {
    if height == 540 {
        Some(1500)
    } else if height == 720 {
        Some(2500)
    } else if height == 1080 {
        Some(5000)
    } else if height == 1440 {
        Some(9000)
    } else if height == 2160 {
        Some(16000)
    } else {
        None
    }
}

/// The bitrate scale of a preset frame rate, as numerator over 20.
pub open spec fn fps_scale_twentieths(fps: u16) -> Option<int> {
    if fps == 15 {
        Some(13)
    } else if fps == 30 {
        Some(20)
    } else if fps == 60 {
        Some(32)
    } else if fps == 90 {
        Some(42)
    } else if fps == 120 {
        Some(52)
    } else if fps == 144 {
        Some(58)
    } else {
        None
    }
}

/// The matrix bitrate at a preset height and frame rate: the height's 30 fps
/// rate times the frame rate's scale (0.65, 1, 1.6, 2.1, 2.6, 2.9), at least 300.
pub open spec fn spec_matrix_kbps(height: u16, fps: u16) -> Option<int> {
    match (base_kbps(height), fps_scale_twentieths(fps)) {
        (Some(b), Some(s)) => {
            let v = b * s / 20;
            Some(if v < 300 {
                300
            } else {
                v
            })
        },
        _ => None,
    }
}

/// The default bitrate at a preset height and frame rate; `None` off the
/// presets, where the rate is interpolated in floating point instead.
pub fn matrix_kbps(height: u16, fps: u16) -> (r: Option<u32>)
    ensures
        r matches Some(v) ==> spec_matrix_kbps(height, fps) == Some(v as int),
        r is None ==> spec_matrix_kbps(height, fps) is None,
{
    let base: u32 = match height {
        540 => 1_500,
        720 => 2_500,
        1080 => 5_000,
        1440 => 9_000,
        2160 => 16_000,
        _ => return None,
    };
    let scale: u32 = match fps {
        15 => 13,
        30 => 20,
        60 => 32,
        90 => 42,
        120 => 52,
        144 => 58,
        _ => return None,
    };
    let v = base * scale / 20;
    Some(if v < 300 {
        300
    } else {
        v
    })
}

#[derive(Clone, Copy, PartialEq, Eq, Structural, Hash, Debug)]
pub enum Codec {
    H264,
    H265,
    Vp8,
    Vp9,
    Av1,
}

impl Default for Codec {
    fn default() -> (r: Self)
        ensures
            r == Codec::H264,
    {
        Codec::H264
    }
}

/// Where the bitrate of a share comes from.
#[derive(Debug, Clone, Copy, PartialEq, Eq, Structural)]
pub enum BitrateSource {
    /// A custom rate, already clamped by the policy.
    Custom(u32),
    /// The policy's rate at this preset height.
    Preset(u16),
    /// A rate scaled from the native size.
    Native,
}

/// What the instance allows for screen-share quality.
#[derive(Clone, Debug, PartialEq)]
pub struct StreamingPolicy {
    pub max_height: u16,
    pub max_fps: u16,
    pub min_kbps: u32,
    pub max_kbps: u32,
    pub step_kbps: u32,
    pub allow_custom_bitrate: bool,
    pub overrides: BitrateOverrides,
    pub preferred_codec: Codec,
    pub allow_h265: bool,
}

/// The value of `allow_h265` when the instance does not say.
pub fn default_true() -> (r: bool)
    ensures
        r,
{
    true
}

impl Default for StreamingPolicy {
    fn default() -> (r: Self)
        ensures
            r.max_height == 2160,
            r.max_fps == 120,
            r.min_kbps == 500,
            r.max_kbps == 20_000,
            r.step_kbps == 500,
            r.allow_custom_bitrate,
            r.overrides@ == Map::<Seq<char>, u32>::empty(),
            r.preferred_codec == Codec::H264,
            r.allow_h265,
    {
        StreamingPolicy {
            max_height: 2160,
            max_fps: 120,
            min_kbps: 500,
            max_kbps: 20_000,
            step_kbps: 500,
            allow_custom_bitrate: true,
            overrides: BitrateOverrides::new(),
            preferred_codec: Codec::H264,
            allow_h265: true,
        }
    }
}

/// `x` brought into `[lo, hi]`.
pub open spec fn clamp_to(x: int, lo: int, hi: int) -> int {
    if x < lo {
        lo
    } else if x > hi {
        hi
    } else {
        x
    }
}

/// The preset values at or below `limit`, in order.
pub open spec fn at_most(s: Seq<u16>, limit: u16) -> Seq<u16>
    decreases s.len(),
{
    if s.len() == 0 {
        Seq::empty()
    } else if s.last() <= limit {
        at_most(s.drop_last(), limit).push(s.last())
    } else {
        at_most(s.drop_last(), limit)
    }
}

/// The index of the first element of `s` whose distance to `target` is least.
pub open spec fn first_nearest(s: Seq<int>, target: int) -> int
    decreases s.len(),
{
    if s.len() <= 1 {
        0
    } else {
        let i = first_nearest(s.drop_last(), target);
        if abs_diff(s.last(), target) < abs_diff(s[i], target) {
            s.len() - 1
        } else {
            i
        }
    }
}

pub open spec fn abs_diff(a: int, b: int) -> int {
    if a >= b {
        a - b
    } else {
        b - a
    }
}

/// The pixel count of each preset height at its 16:9 width.
pub open spec fn preset_pixels() -> Seq<int> {
    resolutions().map_values(|h: u16| spec_width_for_height(h) * h)
}

/// The preset frame rates as numbers.
pub open spec fn preset_rates() -> Seq<int> {
    framerates().map_values(|f: u16| f as int)
}

fn filter_at_most(s: &Vec<u16>, limit: u16) -> (r: Vec<u16>)
    ensures
        r@ == at_most(s@, limit),
{
    let mut out: Vec<u16> = Vec::new();
    let mut i: usize = 0;
    while i < s.len()
        invariant
            0 <= i <= s@.len(),
            out@ == at_most(s@.take(i as int), limit),
        decreases s@.len() - i,
    {
        assert(s@.take(i + 1).drop_last() == s@.take(i as int));
        if s[i] <= limit {
            out.push(s[i]);
        }
        i = i + 1;
    }
    assert(s@.take(s@.len() as int) == s@);
    out
}

/// The key of the override for `height` at `fps`: `"{height}p{fps}"`.
pub open spec fn override_key(height: u16, fps: u16) -> Seq<char> {
    dec_digits(height as nat) + seq!['p'] + dec_digits(fps as nat)
}

/// The key of the override for `height` at `fps`.
pub fn override_key_string(height: u16, fps: u16) -> (r: String)
    ensures
        r@ == override_key(height, fps),
{
    let mut cs = decimal(height as u64);
    cs.push('p');
    let f = decimal(fps as u64);
    crate::text::split::extend_chars(&mut cs, f.as_slice());
    string_of(cs.as_slice())
}

impl StreamingPolicy {
    /// The bitrate for `height` at `fps`: the override for that key where the
    /// policy has one, else `matrix_default` (the matrix bitrate there, which
    /// `matrix_kbps` gives at the presets), brought into
    /// `[min_kbps, max_kbps]`.
    pub fn kbps_for(&self, height: u16, fps: u16, matrix_default: u32) -> (r: u32)
        requires
            self.min_kbps <= self.max_kbps,
        ensures
            r == clamp_to(
                match lookup(self.overrides@, override_key(height, fps)) {
                    Some(v) => v as int,
                    None => matrix_default as int,
                },
                self.min_kbps as int,
                self.max_kbps as int,
            ),
    {
        let key = override_key_string(height, fps);
        let raw = match self.overrides.get(key.as_str()) {
            Some(v) => v,
            None => matrix_default,
        };
        if raw < self.min_kbps {
            self.min_kbps
        } else if raw > self.max_kbps {
            self.max_kbps
        } else {
            raw
        }
    }

    /// The rounding step of custom bitrates; a step of 0 counts as 1.
    pub open spec fn effective_step(&self) -> int {
        if self.step_kbps == 0 {
            1
        } else {
            self.step_kbps as int
        }
    }

    /// A custom bitrate as the policy allows it: without custom bitrates the
    /// request is capped at the maximum, then raised to the minimum; with
    /// them it is rounded down to a multiple of the step (a step of 0 counts
    /// as 1) and brought into `[min_kbps, max_kbps]`.
    pub open spec fn custom_kbps_spec(&self, requested_kbps: u32) -> int {
        if !self.allow_custom_bitrate {
            if requested_kbps < self.max_kbps {
                if requested_kbps < self.min_kbps {
                    self.min_kbps as int
                } else {
                    requested_kbps as int
                }
            } else if self.max_kbps < self.min_kbps {
                self.min_kbps as int
            } else {
                self.max_kbps as int
            }
        } else {
            clamp_to(
                (requested_kbps as int / self.effective_step()) * self.effective_step(),
                self.min_kbps as int,
                self.max_kbps as int,
            )
        }
    }

    /// A custom bitrate as the policy allows it.
    pub fn clamp_custom(&self, requested_kbps: u32) -> (r: u32)
        requires
            self.allow_custom_bitrate ==> self.min_kbps <= self.max_kbps,
        ensures
            r == self.custom_kbps_spec(requested_kbps),
    {
        if !self.allow_custom_bitrate {
            let capped = if requested_kbps < self.max_kbps {
                requested_kbps
            } else {
                self.max_kbps
            };
            return if capped < self.min_kbps {
                self.min_kbps
            } else {
                capped
            };
        }
        let step = if self.step_kbps == 0 {
            1
        } else {
            self.step_kbps
        };
        let q = requested_kbps / step;
        assert(q * step <= requested_kbps) by (nonlinear_arith)
            requires
                q == requested_kbps / step,
                step > 0,
        ;
        let stepped = q * step;
        if stepped < self.min_kbps {
            self.min_kbps
        } else if stepped > self.max_kbps {
            self.max_kbps
        } else {
            stepped
        }
    }

    /// Where the bitrate of a share of native height `height` comes from: a
    /// custom rate, clamped by the policy, where one is asked for; else the
    /// policy's rate at the requested height where that does not upscale;
    /// else the native size.
    pub fn bitrate_source(
        &self,
        height: u32,
        requested_height: Option<u16>,
        custom_kbps: Option<u32>,
    ) -> (r: BitrateSource)
        requires
            custom_kbps is Some && self.allow_custom_bitrate ==> self.min_kbps <= self.max_kbps,
        ensures
            r == match custom_kbps {
                Some(c) => BitrateSource::Custom(self.custom_kbps_spec(c) as u32),
                None => match requested_height {
                    Some(h) => if h >= height {
                        BitrateSource::Preset(h)
                    } else {
                        BitrateSource::Native
                    },
                    None => BitrateSource::Native,
                },
            },
    {
        if let Some(c) = custom_kbps {
            return BitrateSource::Custom(self.clamp_custom(c));
        }
        match requested_height {
            Some(h) => {
                if h as u32 >= height {
                    BitrateSource::Preset(h)
                } else {
                    BitrateSource::Native
                }
            },
            None => BitrateSource::Native,
        }
    }

    /// The preset heights at or below the policy's maximum.
    pub fn allowed_resolutions(&self) -> (r: Vec<u16>)
        ensures
            r@ == at_most(resolutions(), self.max_height),
    {
        let all = resolution_presets();
        filter_at_most(&all, self.max_height)
    }

    /// The preset frame rates at or below the policy's maximum.
    pub fn allowed_framerates(&self) -> (r: Vec<u16>)
        ensures
            r@ == at_most(framerates(), self.max_fps),
    {
        let all = framerate_presets();
        filter_at_most(&all, self.max_fps)
    }

    /// H.265 for 4K above 60 fps when the policy allows it, otherwise the
    /// preferred codec.
    pub fn codec_for(&self, height: u16, fps: u16) -> (r: Codec)
        ensures
            r == (if self.allow_h265 && height >= 2160 && fps > 60 {
                Codec::H265
            } else {
                self.preferred_codec
            }),
    {
        if self.allow_h265 && height >= 2160 && fps > 60 {
            Codec::H265
        } else {
            self.preferred_codec
        }
    }
}

/// The preset height whose 16:9 frame has the pixel count nearest to
/// `width * height` (the lowest such preset on a tie).
pub fn nearest_resolution(width: u32, height: u32) -> (r: u16)
    ensures
        r == resolutions()[first_nearest(preset_pixels(), width as int * height as int)],
{
    assert(width as u64 * height as u64 <= u64::MAX) by (nonlinear_arith);
    let px = width as u64 * height as u64;
    let presets = resolution_presets();
    let mut best: usize = 0;
    let mut best_diff: u64 = 0;
    let mut i: usize = 0;
    while i < presets.len()
        invariant
            presets@ == resolutions(),
            0 <= i <= 5,
            px == width as int * height as int,
            i > 0 ==> best == first_nearest(preset_pixels().take(i as int), px as int),
            i > 0 ==> best_diff == abs_diff(preset_pixels()[best as int], px as int),
            i > 0 ==> 0 <= best < i,
            i == 0 ==> best == 0,
        decreases 5 - i,
    {
        let h = presets[i];
        let w = width_for_height(h);
        let hp = w as u64 * h as u64;
        let d = if hp >= px {
            hp - px
        } else {
            px - hp
        };
        assert(preset_pixels()[i as int] == hp as int);
        assert(preset_pixels().take(i + 1).drop_last() == preset_pixels().take(i as int));
        if i == 0 || d < best_diff {
            best = i;
            best_diff = d;
        }
        i = i + 1;
    }
    assert(preset_pixels().take(5) == preset_pixels());
    presets[best]
}

/// The preset frame rate nearest to `fps` (the lowest such preset on a tie).
pub fn nearest_framerate(fps: u16) -> (r: u16)
    ensures
        r == framerates()[first_nearest(preset_rates(), fps as int)],
{
    let presets = framerate_presets();
    let mut best: usize = 0;
    let mut best_diff: u16 = 0;
    let mut i: usize = 0;
    while i < presets.len()
        invariant
            presets@ == framerates(),
            0 <= i <= 6,
            i > 0 ==> best == first_nearest(preset_rates().take(i as int), fps as int),
            i > 0 ==> best_diff == abs_diff(preset_rates()[best as int], fps as int),
            i > 0 ==> 0 <= best < i,
            i == 0 ==> best == 0,
        decreases 6 - i,
    {
        let f = presets[i];
        let d = if f >= fps {
            f - fps
        } else {
            fps - f
        };
        assert(preset_rates()[i as int] == f as int);
        assert(preset_rates().take(i + 1).drop_last() == preset_rates().take(i as int));
        if i == 0 || d < best_diff {
            best = i;
            best_diff = d;
        }
        i = i + 1;
    }
    assert(preset_rates().take(6) == preset_rates());
    presets[best]
}

proof fn lemma_matrix_values()
    ensures
        spec_matrix_kbps(540, 15) == Some(975int) && spec_matrix_kbps(540, 30) == Some(1500int)
            && spec_matrix_kbps(540, 60) == Some(2400int) && spec_matrix_kbps(540, 90) == Some(3150int)
            && spec_matrix_kbps(540, 120) == Some(3900int) && spec_matrix_kbps(540, 144) == Some(4350int),
        spec_matrix_kbps(720, 15) == Some(1625int) && spec_matrix_kbps(720, 30) == Some(2500int)
            && spec_matrix_kbps(720, 60) == Some(4000int) && spec_matrix_kbps(720, 90) == Some(5250int)
            && spec_matrix_kbps(720, 120) == Some(6500int) && spec_matrix_kbps(720, 144) == Some(7250int),
        spec_matrix_kbps(1080, 15) == Some(3250int) && spec_matrix_kbps(1080, 30) == Some(5000int)
            && spec_matrix_kbps(1080, 60) == Some(8000int) && spec_matrix_kbps(1080, 90) == Some(10500int)
            && spec_matrix_kbps(1080, 120) == Some(13000int) && spec_matrix_kbps(1080, 144) == Some(14500int),
        spec_matrix_kbps(1440, 15) == Some(5850int) && spec_matrix_kbps(1440, 30) == Some(9000int)
            && spec_matrix_kbps(1440, 60) == Some(14400int) && spec_matrix_kbps(1440, 90) == Some(18900int)
            && spec_matrix_kbps(1440, 120) == Some(23400int) && spec_matrix_kbps(1440, 144) == Some(26100int),
        spec_matrix_kbps(2160, 15) == Some(10400int) && spec_matrix_kbps(2160, 30) == Some(16000int)
            && spec_matrix_kbps(2160, 60) == Some(25600int) && spec_matrix_kbps(2160, 90) == Some(33600int)
            && spec_matrix_kbps(2160, 120) == Some(41600int) && spec_matrix_kbps(2160, 144) == Some(46400int),
{
}

/// The matrix rises with the height at a fixed preset frame rate and with the
/// frame rate at a fixed preset height.
pub proof fn lemma_matrix_monotonic(i: int, j: int)
    ensures
        0 <= i < 4 && 0 <= j < 6 ==> spec_matrix_kbps(resolutions()[i], framerates()[j])->0
            < spec_matrix_kbps(resolutions()[i + 1], framerates()[j])->0,
        0 <= i < 5 && 0 <= j < 5 ==> spec_matrix_kbps(resolutions()[i], framerates()[j])->0
            < spec_matrix_kbps(resolutions()[i], framerates()[j + 1])->0,
{
    lemma_matrix_values();
    assert(resolutions()[0] == 540 && resolutions()[1] == 720 && resolutions()[2] == 1080
        && resolutions()[3] == 1440 && resolutions()[4] == 2160);
    assert(framerates()[0] == 15 && framerates()[1] == 30 && framerates()[2] == 60
        && framerates()[3] == 90 && framerates()[4] == 120 && framerates()[5] == 144);
}

} // verus!
