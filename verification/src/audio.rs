//! Audio device errors and their classification, device descriptions, and the
//! microphone's transmit gate.

use std::sync::atomic::{AtomicBool, AtomicU32};
pub mod recovery;
pub mod pipeline;

use vstd::prelude::*;
use crate::text::{seq_contains, str_contains, chars_of, string_of};
use crate::text::split::{trim, trim_chars};
use crate::subtitle_merge::transcript::chars_eq;

verus! {

#[derive(Clone, PartialEq, Eq, Debug)]
pub struct AudioDevice {
    pub id: String,
    pub name: String,
    pub default: bool,
}

#[derive(Clone, Debug, Default)]
pub struct AudioDevices {
    pub inputs: Vec<AudioDevice>,
    pub outputs: Vec<AudioDevice>,
}

#[derive(Clone, Copy, PartialEq, Eq, Structural, Debug)]
pub enum DeviceKind {
    Input,
    Output,
}

/// Why opening or running an audio stream failed.
#[derive(Clone, PartialEq, Eq, Debug)]
pub enum AudioIoError {
    NoDevice,
    PermissionDenied,
    DeviceBusy,
    Unsupported(String),
    /// The stream handle died but the device is still there.
    Invalidated(String),
    /// A glitch that stopped nothing: an over/underrun, or a route change the
    /// backend already followed.
    Transient(String),
    Other(String),
}

/// The stable code of each error kind.
pub open spec fn audio_error_code(e: AudioIoError) -> &'static str {
    match e {
        AudioIoError::NoDevice => "no_device",
        AudioIoError::PermissionDenied => "permission_denied",
        AudioIoError::DeviceBusy => "device_busy",
        AudioIoError::Unsupported(_) => "unsupported",
        AudioIoError::Invalidated(_) => "invalidated",
        AudioIoError::Transient(_) => "transient",
        AudioIoError::Other(_) => "other",
    }
}

impl AudioIoError {
    pub fn code(&self) -> (r: &'static str)
        ensures
            r == audio_error_code(*self),
    {
        match self {
            AudioIoError::NoDevice => "no_device",
            AudioIoError::PermissionDenied => "permission_denied",
            AudioIoError::DeviceBusy => "device_busy",
            AudioIoError::Unsupported(_) => "unsupported",
            AudioIoError::Invalidated(_) => "invalidated",
            AudioIoError::Transient(_) => "transient",
            AudioIoError::Other(_) => "other",
        }
    }

    /// Whether the stream actually stopped: every error but a transient glitch.
    pub fn fatal(&self) -> (r: bool)
        ensures
            r == !(*self is Transient),
    {
        match self {
            AudioIoError::Transient(_) => false,
            _ => true,
        }
    }
}

/// Access denied as it reaches us through an OS error message: the Windows
/// HRESULT `E_ACCESSDENIED` or the Win32 `ERROR_ACCESS_DENIED`, recognised by
/// number so that it works in every language.
pub fn is_access_denied(message: &str) -> (r: bool)
    ensures
        r == (seq_contains(message@, "(os error -2147024891)"@) || seq_contains(
            message@,
            "(os error 5)"@,
        )),
{
    str_contains(message, "(os error -2147024891)") || str_contains(message, "(os error 5)")
}

/// The entry of device `id`: named `name` where the OS gave a name and by its
/// id otherwise, and marked default when it is the OS default device.
pub fn describe(id: String, name: Option<String>, default_id: Option<&str>) -> (r: AudioDevice)
    ensures
        r.id@ == id@,
        r.name@ == (match name {
            Some(n) => n@,
            None => id@,
        }),
        r.default == (default_id matches Some(d) && d@ == id@),
{
    let default = match default_id {
        Some(d) => {
            let a = chars_of(d);
            let b = chars_of(id.as_str());
            chars_eq(a.as_slice(), b.as_slice())
        },
        None => false,
    };
    let name = match name {
        Some(n) => n,
        None => id.clone(),
    };
    AudioDevice { id, name, default }
}

/// Whether device `id` is among the devices the OS lists: used to tell an
/// unplugged device from one that is there but will not open.
pub fn is_listed(listed: &[String], id: &str) -> (r: bool)
    ensures
        r == exists|i: int| 0 <= i < listed@.len() && (#[trigger] listed@[i])@ == id@,
{
    position(listed, id).is_some()
}

/// The position of device `id` among those listed.
pub fn position(listed: &[String], id: &str) -> (r: Option<usize>)
    ensures
        r matches Some(i) ==> i < listed@.len() && listed@[i as int]@ == id@,
        r is None ==> forall|i: int| 0 <= i < listed@.len() ==> (#[trigger] listed@[i])@ != id@,
{
    let target = chars_of(id);
    let mut i: usize = 0;
    while i < listed.len()
        invariant
            0 <= i <= listed@.len(),
            target@ == id@,
            forall|k: int| 0 <= k < i ==> (#[trigger] listed@[k])@ != id@,
        decreases listed@.len() - i,
    {
        let c = chars_of(listed[i].as_str());
        if chars_eq(c.as_slice(), target.as_slice()) {
            return Some(i);
        }
        i = i + 1;
    }
    None
}

/// The device a caller asked for: its id trimmed, none where it is blank
/// (the default device is used then).
pub open spec fn wanted_device(id: Option<Seq<char>>) -> Option<Seq<char>> {
    match id {
        Some(s) => if trim(s).len() > 0 {
            Some(trim(s))
        } else {
            None
        },
        None => None,
    }
}

/// Which listed device to open for a request of `id`: the listed device with
/// the trimmed id, none when the request is blank or names no listed device
/// (the caller opens the default device then).
pub fn find(listed: &[String], id: Option<&str>) -> (r: Option<usize>)
    ensures
        wanted_device(match id {
            Some(s) => Some(s@),
            None => None,
        }) is None ==> r is None,
        wanted_device(match id {
            Some(s) => Some(s@),
            None => None,
        }) matches Some(w) ==> (match r {
            Some(i) => i < listed@.len() && listed@[i as int]@ == w,
            None => forall|i: int| 0 <= i < listed@.len() ==> (#[trigger] listed@[i])@ != w,
        }),
{
    match id {
        None => None,
        Some(s) => {
            let t = trim_chars(chars_of(s).as_slice());
            if t.len() == 0 {
                return None;
            }
            let w = string_of(t.as_slice());
            position(listed, w.as_str())
        },
    }
}

#[derive(Clone, Copy, PartialEq, Eq, Structural, Debug)]
pub enum StreamFault {
    Input,
    Output,
}

/// Why a device stopped working, as told by re-opening it.
#[derive(Clone, Copy, PartialEq, Eq, Structural, Debug)]
pub enum DeviceLoss {
    Unplugged,
    PermissionRevoked,
    Busy,
    Failed,
}

/// Classifies a lost device from whether the OS still lists it and the error
/// that re-opening it gave: a permission error wins, then a missing device,
/// then a busy one; any other error is an unplug when the device is no longer
/// listed and a plain failure when it is.
pub open spec fn classify_loss_spec(still_listed: bool, probe: AudioIoError) -> DeviceLoss {
    match probe {
        AudioIoError::PermissionDenied => DeviceLoss::PermissionRevoked,
        AudioIoError::NoDevice => DeviceLoss::Unplugged,
        AudioIoError::DeviceBusy => DeviceLoss::Busy,
        _ => if !still_listed {
            DeviceLoss::Unplugged
        } else {
            DeviceLoss::Failed
        },
    }
}

pub fn classify_loss(still_listed: bool, probe: &AudioIoError) -> (r: DeviceLoss)
    ensures
        r == classify_loss_spec(still_listed, *probe),
{
    match probe {
        AudioIoError::PermissionDenied => DeviceLoss::PermissionRevoked,
        AudioIoError::NoDevice => DeviceLoss::Unplugged,
        AudioIoError::DeviceBusy => DeviceLoss::Busy,
        _ => if !still_listed {
            DeviceLoss::Unplugged
        } else {
            DeviceLoss::Failed
        },
    }
}

/// Whether the microphone goes out: not muted, and either push-to-talk is off
/// or its key is held.
pub open spec fn spec_transmitting(muted: bool, ptt_enabled: bool, ptt_pressed: bool) -> bool {
    !muted && (!ptt_enabled || ptt_pressed)
}

/// Whether the microphone goes out, given mute and push-to-talk state.
pub fn transmit_gate(muted: bool, ptt_enabled: bool, ptt_pressed: bool) -> (r: bool)
    ensures
        r == spec_transmitting(muted, ptt_enabled, ptt_pressed),
{
    !muted && (!ptt_enabled || ptt_pressed)
}

/// Mute always wins: a muted microphone never goes out, whatever the
/// push-to-talk switches say; unmuted, it goes out freely without
/// push-to-talk and only while the key is held with it.
pub proof fn lemma_mute_wins(ptt_enabled: bool, ptt_pressed: bool)
    ensures
        !spec_transmitting(true, ptt_enabled, ptt_pressed),
        spec_transmitting(false, false, ptt_pressed),
        spec_transmitting(false, true, ptt_pressed) == ptt_pressed,
{
}

/// The switches that the UI flips while the microphone thread runs.
pub struct CaptureFlags {
    pub muted: AtomicBool,
    pub ptt_enabled: AtomicBool,
    pub ptt_pressed: AtomicBool,
    pub denoise: AtomicBool,
    pub monitor: AtomicBool,
    vad_threshold_bits: AtomicU32,
}

/// The bits of the `f32` -45.0, the default voice-activity threshold in dB.
pub const DEFAULT_VAD_THRESHOLD_BITS: u32 = 0xc234_0000;

impl CaptureFlags {
    /// All switches off and the threshold at -45 dB.
    pub fn new() -> (r: Self) {
        CaptureFlags {
            muted: AtomicBool::new(false),
            ptt_enabled: AtomicBool::new(false),
            ptt_pressed: AtomicBool::new(false),
            denoise: AtomicBool::new(false),
            monitor: AtomicBool::new(false),
            vad_threshold_bits: AtomicU32::new(DEFAULT_VAD_THRESHOLD_BITS),
        }
    }

    /// The bits of the `f32` voice-activity threshold in dB.
    pub fn vad_threshold_bits(&self) -> u32 {
        self.vad_threshold_bits.load(std::sync::atomic::Ordering::Relaxed)
    }

    pub fn set_vad_threshold_bits(&self, bits: u32) {
        self.vad_threshold_bits.store(bits, std::sync::atomic::Ordering::Relaxed);
    }

    /// Loads the mute and push-to-talk flags once each and decides with
    /// `transmit_gate`. The flags are shared with other threads, so what they
    /// read is whatever was last stored.
    pub fn transmitting(&self) -> (r: bool) {
        let muted = self.muted.load(std::sync::atomic::Ordering::Relaxed);
        let ptt_enabled = self.ptt_enabled.load(std::sync::atomic::Ordering::Relaxed);
        let ptt_pressed = self.ptt_pressed.load(std::sync::atomic::Ordering::Relaxed);
        transmit_gate(muted, ptt_enabled, ptt_pressed)
    }
}

impl Default for CaptureFlags {
    fn default() -> (r: Self) {
        Self::new()
    }
}

/// What macOS says of microphone access before a stream opens.
#[derive(Clone, Copy, PartialEq, Eq, Structural, Debug)]
pub enum MicAuthorization {
    Granted,
    Denied,
    /// Not decided yet: the user is asked.
    Ask,
}

/// AVFoundation's authorization status for audio capture: 3 is authorized,
/// 1 (restricted) and 2 (denied) refuse, anything else is not decided yet.
pub fn microphone_authorization(status: isize) -> (r: MicAuthorization)
    ensures
        r == (if status == 3 {
            MicAuthorization::Granted
        } else if status == 1 || status == 2 {
            MicAuthorization::Denied
        } else {
            MicAuthorization::Ask
        }),
{
    if status == 3 {
        MicAuthorization::Granted
    } else if status == 1 || status == 2 {
        MicAuthorization::Denied
    } else {
        MicAuthorization::Ask
    }
}

/// The result of a microphone access check: granted gives `Ok`, a refusal
/// `PermissionDenied`; after asking, only an answer of yes (`Some(true)`,
/// where `None` is no answer in time) grants access.
pub fn microphone_access(auth: MicAuthorization, answer: Option<bool>) -> (r: Result<(), AudioIoError>)
    ensures
        r is Ok <==> (auth == MicAuthorization::Granted || (auth == MicAuthorization::Ask && answer
            == Some(true))),
        r is Err ==> r->Err_0 == AudioIoError::PermissionDenied,
{
    match auth {
        MicAuthorization::Granted => Ok(()),
        MicAuthorization::Denied => Err(AudioIoError::PermissionDenied),
        MicAuthorization::Ask => match answer {
            Some(true) => Ok(()),
            _ => Err(AudioIoError::PermissionDenied),
        },
    }
}

/// Microphone access on platforms where the OS does not gate it before a
/// stream opens: always granted here.
pub fn ensure_microphone_access() -> (r: Result<(), AudioIoError>)
    ensures
        r is Ok,
{
    Ok(())
}

} // verus!
