use omnidisc::audio::recovery::{fault_response, start, step, FaultResponse, Recovery, RecoveryEvent};
use omnidisc::audio::{AudioIoError, DeviceKind, DeviceLoss, StreamFault};
use omnidisc::engine::DeviceStatus;

fn failed(error: AudioIoError, still_listed: bool) -> RecoveryEvent {
    RecoveryEvent::Failed { error, still_listed }
}

#[test]
fn a_silent_reopen_says_nothing() {
    let (s, a) = start();
    assert_eq!(s, Recovery::Silent);
    assert_eq!(a.open, Some((50, false)));
    let (s, a) = step(DeviceKind::Input, false, s, &RecoveryEvent::Opened);
    assert_eq!(s, Recovery::Finished);
    assert!(a.mark_running);
    assert_eq!(a.status, None);
    assert_eq!(a.error_code, None);
}

#[test]
fn three_failed_reopens_leave_the_microphone_listen_only() {
    let (s, _) = start();
    let (s, a) = step(DeviceKind::Input, false, s, &failed(AudioIoError::Other("x".into()), true));
    assert_eq!(a.error_code, Some("ERR_VOICE_MIC_LOST"));
    assert_eq!(a.status, Some(DeviceStatus::Lost));
    assert_eq!(a.open, Some((250, false)));
    let (s, a) = step(DeviceKind::Input, false, s, &failed(AudioIoError::DeviceBusy, true));
    assert_eq!(a.open, Some((1_000, false)));
    let (s, a) = step(DeviceKind::Input, false, s, &failed(AudioIoError::DeviceBusy, true));
    assert_eq!(a.open, Some((3_000, false)));
    let (s, a) = step(DeviceKind::Input, false, s, &failed(AudioIoError::DeviceBusy, true));
    assert_eq!(s, Recovery::Finished);
    assert!(a.stop);
    assert_eq!(a.status, Some(DeviceStatus::ListenOnly));
    assert_eq!(a.cause, Some(DeviceLoss::Busy));
    assert_eq!(a.open, None);
}

#[test]
fn permission_loss_gives_up_at_once_and_an_unplug_falls_back() {
    let s = Recovery::Probe { attempt: 0 };
    let (s2, a) = step(DeviceKind::Output, true, s, &failed(AudioIoError::PermissionDenied, true));
    assert_eq!(s2, Recovery::Finished);
    assert_eq!(a.status, Some(DeviceStatus::Silent));
    assert_eq!(a.cause, Some(DeviceLoss::PermissionRevoked));
    let (s3, a) = step(DeviceKind::Output, true, s, &failed(AudioIoError::Other("gone".into()), false));
    assert_eq!(s3, Recovery::Fallback { attempt: 0, cause: DeviceLoss::Unplugged });
    assert_eq!(a.open, Some((0, true)));
    let (s4, a) = step(DeviceKind::Output, true, s3, &RecoveryEvent::Opened);
    assert_eq!(s4, Recovery::Finished);
    assert!(a.clear_choice && a.mark_running);
    assert_eq!(a.status, Some(DeviceStatus::SwitchedToDefault));
    assert_eq!(a.cause, Some(DeviceLoss::Unplugged));
    let (s5, a) = step(DeviceKind::Output, true, s3, &failed(AudioIoError::NoDevice, true));
    assert_eq!(s5, Recovery::Probe { attempt: 1 });
    assert_eq!(a.open, Some((1_000, false)));
}

#[test]
fn a_device_no_longer_wanted_ends_the_recovery() {
    let (s, a) = step(DeviceKind::Input, false, Recovery::Probe { attempt: 2 }, &RecoveryEvent::Gone);
    assert_eq!(s, Recovery::Finished);
    assert_eq!(a.open, None);
    assert!(!a.stop);
}

#[test]
fn only_fatal_faults_stop_a_device_and_one_recovery_runs_at_a_time() {
    let glitch = AudioIoError::Transient("underrun".to_string());
    assert_eq!(
        fault_response(StreamFault::Input, &glitch, false),
        FaultResponse { stopped: None, start_recovery: false }
    );
    let dead = AudioIoError::Invalidated("gone".to_string());
    assert_eq!(
        fault_response(StreamFault::Output, &dead, false),
        FaultResponse { stopped: Some(DeviceKind::Output), start_recovery: true }
    );
    assert_eq!(
        fault_response(StreamFault::Input, &AudioIoError::NoDevice, true),
        FaultResponse { stopped: Some(DeviceKind::Input), start_recovery: false }
    );
}
