//! Voice-engine errors, call quality, device status and connection options.

use vstd::prelude::*;
use crate::audio::{AudioIoError, DeviceKind};
use crate::e2ee::RoomKey;

pub mod room;

verus! {

#[derive(Clone, PartialEq, Eq, Debug)]
pub enum MediaError {
    Unavailable(String),
    Connection(String),
    Device(String),
    NotConnected,
    Panicked,
}

pub open spec fn media_error_code(e: MediaError) -> &'static str {
    match e {
        MediaError::Unavailable(_) => "ERR_VOICE_UNAVAILABLE",
        MediaError::Connection(_) => "ERR_VOICE_UNREACHABLE",
        MediaError::Device(_) => "ERR_VOICE_NO_AUDIO_DEVICE",
        MediaError::NotConnected => "ERR_VOICE_NOT_CONNECTED",
        MediaError::Panicked => "ERR_VOICE_ENGINE_CRASHED",
    }
}

impl MediaError {
    /// The code that the interface shows for the error.
    pub fn code(&self) -> (r: &'static str)
        ensures
            r == media_error_code(*self),
    {
        match self {
            MediaError::Unavailable(_) => "ERR_VOICE_UNAVAILABLE",
            MediaError::Connection(_) => "ERR_VOICE_UNREACHABLE",
            MediaError::Device(_) => "ERR_VOICE_NO_AUDIO_DEVICE",
            MediaError::NotConnected => "ERR_VOICE_NOT_CONNECTED",
            MediaError::Panicked => "ERR_VOICE_ENGINE_CRASHED",
        }
    }
}

#[derive(Clone, Copy, PartialEq, Eq, Structural, Debug)]
pub enum Quality {
    Excellent,
    Good,
    Poor,
    Lost,
}

/// Where an audio device ended up after it disappeared mid-call.
#[derive(Clone, Copy, PartialEq, Eq, Structural, Debug)]
pub enum DeviceStatus {
    Lost,
    Recovered,
    SwitchedToDefault,
    ListenOnly,
    Silent,
}

/// Everything about a connection that is not audio: the MLS room key when the
/// channel has a group, and whether every candidate goes through a relay.
#[derive(Clone, Default)]
pub struct ConnectOptions {
    pub room_key: Option<RoomKey>,
    pub relay_only: bool,
}

#[derive(Clone, Debug, Default)]
pub struct ConnectOutcome {
    pub mic_error: Option<String>,
    pub output_error: Option<String>,
}

/// The backend used when none is compiled in.
pub struct NullBackend;

/// The code reported when opening a device of `kind` failed with `e`.
pub open spec fn io_error_code(e: AudioIoError, kind: DeviceKind) -> &'static str {
    match (e, kind) {
        (AudioIoError::PermissionDenied, DeviceKind::Input) => "ERR_VOICE_MIC_PERMISSION",
        (AudioIoError::NoDevice, DeviceKind::Input) => "ERR_VOICE_NO_INPUT_DEVICE",
        (AudioIoError::NoDevice, DeviceKind::Output) => "ERR_VOICE_NO_OUTPUT_DEVICE",
        (AudioIoError::DeviceBusy, _) => "ERR_VOICE_DEVICE_BUSY",
        (_, DeviceKind::Input) => "ERR_VOICE_MIC_FAILED",
        (_, DeviceKind::Output) => "ERR_VOICE_OUTPUT_FAILED",
    }
}

/// Maps a device error to the code that the call reports for it.
pub fn map_io_error(e: &AudioIoError, kind: DeviceKind) -> (r: String)
    ensures
        r@ == io_error_code(*e, kind)@,
{
    let code: &'static str = match (e, kind) {
        (AudioIoError::PermissionDenied, DeviceKind::Input) => "ERR_VOICE_MIC_PERMISSION",
        (AudioIoError::NoDevice, DeviceKind::Input) => "ERR_VOICE_NO_INPUT_DEVICE",
        (AudioIoError::NoDevice, DeviceKind::Output) => "ERR_VOICE_NO_OUTPUT_DEVICE",
        (AudioIoError::DeviceBusy, _) => "ERR_VOICE_DEVICE_BUSY",
        (_, DeviceKind::Input) => "ERR_VOICE_MIC_FAILED",
        (_, DeviceKind::Output) => "ERR_VOICE_OUTPUT_FAILED",
    };
    code.to_owned()
}

} // verus!
