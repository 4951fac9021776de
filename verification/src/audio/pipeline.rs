//! The microphone pipeline's decisions at each 10 ms tick: when to report an
//! underrun, when to warn that the input is silent, voice activity with its
//! hangover, and when to report the input level. The samples and their
//! levels are measured outside; a tick is told what was measured.

use vstd::prelude::*;

verus! {

/// The input level is reported every this many ticks while monitoring.
pub const LEVEL_EVERY_TICKS: u32 = 10;

/// Ticks that voice activity lasts after the last loud tick.
pub const VAD_HANGOVER_TICKS: u32 = 30;

/// Ticks of all-zero input before the silent-input warning.
pub const SILENT_INPUT_TICKS: u32 = 200;

/// Ticks without input before an underrun is reported.
pub const UNDERRUN_REPORT_TICKS: u64 = 50;

/// What the pipeline remembers from tick to tick.
#[derive(Clone, Copy, Debug, PartialEq, Eq, Structural)]
pub struct TickState {
    pub speaking: bool,
    pub hang: u32,
    pub tick: u32,
    pub underruns: u64,
    pub zero_ticks: u32,
    pub silent_flagged: bool,
}

/// What one tick saw: whether a frame was produced (input or test tone),
/// whether a test tone is playing, whether the frame's peak is exactly zero,
/// whether its level is above the voice-activity threshold, whether the
/// microphone is transmitting, and whether the level is being monitored.
#[derive(Clone, Copy, Debug, PartialEq, Eq, Structural)]
pub struct TickInput {
    pub got: bool,
    pub tone: bool,
    pub silent: bool,
    pub above_threshold: bool,
    pub transmitting: bool,
    pub monitor: bool,
}

/// What one tick reports: an underrun, the silent-input warning, a change of
/// voice activity, and whether to report the level.
#[derive(Clone, Copy, Debug, PartialEq, Eq, Structural)]
pub struct TickEvents {
    pub underrun: bool,
    pub silent_input: bool,
    pub speaking: Option<bool>,
    pub level: bool,
}

impl TickState {
    /// A pipeline that has not ticked yet.
    pub fn new() -> (r: Self)
        ensures
            r == (TickState {
                speaking: false,
                hang: 0,
                tick: 0,
                underruns: 0,
                zero_ticks: 0,
                silent_flagged: false,
            }),
    {
        TickState { speaking: false, hang: 0, tick: 0, underruns: 0, zero_ticks: 0, silent_flagged: false }
    }
}

/// The hangover after a tick: full after a loud transmitting tick with
/// input, one less (down to zero) otherwise.
pub open spec fn next_hang(s: TickState, i: TickInput) -> u32 {
    if i.got && i.transmitting && i.above_threshold {
        VAD_HANGOVER_TICKS
    } else if s.hang > 0 {
        (s.hang - 1) as u32
    } else {
        0
    }
}

/// The zero-input count after a tick: it grows (saturating) on all-zero
/// input, restarts on any other input, and stays while there is no input or
/// a test tone plays.
pub open spec fn next_zero_ticks(s: TickState, i: TickInput) -> u32 {
    if i.got && !i.tone {
        if i.silent {
            if s.zero_ticks == u32::MAX {
                u32::MAX
            } else {
                (s.zero_ticks + 1) as u32
            }
        } else {
            0
        }
    } else {
        s.zero_ticks
    }
}

/// One tick of the pipeline.
pub fn tick(s: TickState, i: TickInput) -> (r: (TickState, TickEvents))
    requires
        i.got || s.underruns < u64::MAX,
    ensures
        r.0.underruns == if i.got {
            0
        } else {
            s.underruns + 1
        },
        r.1.underrun == (!i.got && s.underruns + 1 == UNDERRUN_REPORT_TICKS),
        r.0.zero_ticks == next_zero_ticks(s, i),
        r.0.silent_flagged == if i.got && !i.tone {
            i.silent && (s.silent_flagged || next_zero_ticks(s, i) == SILENT_INPUT_TICKS)
        } else {
            s.silent_flagged
        },
        r.1.silent_input == (i.got && !i.tone && i.silent && !s.silent_flagged && next_zero_ticks(
            s,
            i,
        ) == SILENT_INPUT_TICKS),
        r.0.hang == next_hang(s, i),
        r.0.speaking == (next_hang(s, i) > 0 && i.transmitting),
        r.1.speaking == if r.0.speaking != s.speaking {
            Some(r.0.speaking)
        } else {
            None
        },
        r.0.tick == (s.tick + 1) % 0x1_0000_0000,
        r.1.level == (i.monitor && r.0.tick % LEVEL_EVERY_TICKS == 0),
        !i.transmitting ==> !r.0.speaking && r.1.speaking != Some(true) && (r.1.speaking == Some(false)
            <==> s.speaking),
        match r.1.speaking {
            Some(b) => r.0.speaking == b && b != s.speaking,
            None => r.0.speaking == s.speaking,
        },
{
    let mut n = s;
    let mut ev = TickEvents { underrun: false, silent_input: false, speaking: None, level: false };
    if !i.got {
        n.underruns = s.underruns + 1;
        if n.underruns == UNDERRUN_REPORT_TICKS {
            ev.underrun = true;
        }
    } else {
        n.underruns = 0;
    }
    if i.got && !i.tone {
        if i.silent {
            n.zero_ticks = s.zero_ticks.saturating_add(1);
            if n.zero_ticks == SILENT_INPUT_TICKS && !s.silent_flagged {
                n.silent_flagged = true;
                ev.silent_input = true;
            }
        } else {
            n.zero_ticks = 0;
            n.silent_flagged = false;
        }
    }
    let loud = i.got && i.transmitting && i.above_threshold;
    if loud {
        n.hang = VAD_HANGOVER_TICKS;
    } else if s.hang > 0 {
        n.hang = s.hang - 1;
    }
    let speaking_now = n.hang > 0 && i.transmitting;
    if speaking_now != s.speaking {
        n.speaking = speaking_now;
        ev.speaking = Some(speaking_now);
    }
    n.tick = if s.tick == u32::MAX {
        0
    } else {
        s.tick + 1
    };
    if i.monitor && n.tick % LEVEL_EVERY_TICKS == 0 {
        ev.level = true;
    }
    (n, ev)
}

/// Samples in one 10 ms frame at 48 kHz.
pub const FRAME_SAMPLES: usize = 480;

/// The 16-bit frame handed to the media server for a tick: the captured
/// samples, already converted, while transmitting; silence of the same
/// length otherwise (muted, or push-to-talk not pressed).
pub fn outgoing_frame(transmitting: bool, converted: &[i16]) -> (r: Vec<i16>)
    ensures
        r@.len() == converted@.len(),
        transmitting ==> r@ == converted@,
        !transmitting ==> forall|k: int| 0 <= k < r@.len() ==> r@[k] == 0,
{
    let mut out: Vec<i16> = Vec::new();
    let mut k: usize = 0;
    while k < converted.len()
        invariant
            0 <= k <= converted@.len(),
            out@.len() == k,
            transmitting ==> out@ == converted@.take(k as int),
            !transmitting ==> forall|j: int| 0 <= j < k ==> out@[j] == 0,
        decreases converted@.len() - k,
    {
        if transmitting {
            out.push(converted[k]);
            assert(converted@.take(k + 1) =~= converted@.take(k as int).push(converted@[k as int]));
        } else {
            out.push(0);
        }
        k = k + 1;
    }
    assert(converted@.take(converted@.len() as int) =~= converted@);
    out
}

} // verus!
