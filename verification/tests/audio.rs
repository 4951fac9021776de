use omnidisc::audio::{
    describe, find, is_listed, classify_loss, is_access_denied, transmit_gate, AudioIoError, CaptureFlags, DeviceLoss,
};
use omnidisc::audio::{microphone_access, microphone_authorization, MicAuthorization};
use std::sync::atomic::Ordering;

#[test]
fn transmit_gate_respects_mute_and_ptt() {
    let f = CaptureFlags::default();
    assert!(f.transmitting());
    f.muted.store(true, Ordering::Relaxed);
    assert!(!f.transmitting());
    f.muted.store(false, Ordering::Relaxed);
    f.ptt_enabled.store(true, Ordering::Relaxed);
    assert!(!f.transmitting());
    f.ptt_pressed.store(true, Ordering::Relaxed);
    assert!(f.transmitting());
}

#[test]
fn permission_beats_everything_else() {
    assert_eq!(
        classify_loss(true, &AudioIoError::PermissionDenied),
        DeviceLoss::PermissionRevoked
    );
    assert_eq!(
        classify_loss(false, &AudioIoError::PermissionDenied),
        DeviceLoss::PermissionRevoked
    );
}

#[test]
fn a_device_the_os_no_longer_lists_counts_as_unplugged() {
    assert_eq!(
        classify_loss(false, &AudioIoError::Other("gone".into())),
        DeviceLoss::Unplugged
    );
    assert_eq!(
        classify_loss(true, &AudioIoError::NoDevice),
        DeviceLoss::Unplugged
    );
}

#[test]
fn a_glitch_does_not_end_the_stream_but_everything_else_does() {
    assert!(!AudioIoError::Transient("xrun".into()).fatal());
    assert!(AudioIoError::Invalidated("default changed".into()).fatal());
    assert!(AudioIoError::NoDevice.fatal());
    assert!(AudioIoError::PermissionDenied.fatal());
    assert!(AudioIoError::Other("boom".into()).fatal());
}

#[test]
fn windows_access_denied_is_recognised_by_its_number() {
    assert!(is_access_denied("Access is denied. (os error -2147024891)"));
    assert!(is_access_denied("Acesso negado. (os error 5)"));
    assert!(!is_access_denied(
        "The device is not available. (os error -2147023728)"
    ));
    assert!(!is_access_denied("no error code here"));
}

#[test]
fn a_listed_device_that_will_not_open_is_a_plain_failure() {
    assert_eq!(
        classify_loss(true, &AudioIoError::Other("boom".into())),
        DeviceLoss::Failed
    );
    assert_eq!(
        classify_loss(true, &AudioIoError::DeviceBusy),
        DeviceLoss::Busy
    );
}

#[test]
fn gate_truth_table() {
    assert!(transmit_gate(false, false, false));
    assert!(transmit_gate(false, false, true));
    assert!(!transmit_gate(false, true, false));
    assert!(transmit_gate(false, true, true));
    assert!(!transmit_gate(true, false, false));
    assert!(!transmit_gate(true, true, true));
}

#[test]
fn error_codes_are_stable() {
    assert_eq!(AudioIoError::NoDevice.code(), "no_device");
    assert_eq!(AudioIoError::PermissionDenied.code(), "permission_denied");
    assert_eq!(AudioIoError::DeviceBusy.code(), "device_busy");
    assert_eq!(AudioIoError::Unsupported("x".into()).code(), "unsupported");
    assert_eq!(AudioIoError::Invalidated("x".into()).code(), "invalidated");
    assert_eq!(AudioIoError::Transient("x".into()).code(), "transient");
    assert_eq!(AudioIoError::Other("x".into()).code(), "other");
    assert!(AudioIoError::DeviceBusy.fatal());
    assert!(AudioIoError::Unsupported("x".into()).fatal());
}

#[test]
fn device_entries_and_lookup() {
    let d = describe("usb-1".into(), Some("Headset".into()), Some("usb-1"));
    assert_eq!(d.name, "Headset");
    assert!(d.default);
    let d = describe("usb-2".into(), None, Some("usb-1"));
    assert_eq!(d.name, "usb-2");
    assert!(!d.default);
    assert!(!describe("x".into(), None, None).default);
    let listed = vec!["a".to_string(), "b".to_string()];
    assert!(is_listed(&listed, "b"));
    assert!(!is_listed(&listed, "c"));
    assert_eq!(find(&listed, Some("  b ")), Some(1));
    assert_eq!(find(&listed, Some("c")), None);
    assert_eq!(find(&listed, Some("   ")), None);
    assert_eq!(find(&listed, None), None);
}

#[test]
fn macos_microphone_status_maps_to_access() {
    assert_eq!(microphone_authorization(3), MicAuthorization::Granted);
    assert_eq!(microphone_authorization(1), MicAuthorization::Denied);
    assert_eq!(microphone_authorization(2), MicAuthorization::Denied);
    assert_eq!(microphone_authorization(0), MicAuthorization::Ask);
    assert!(microphone_access(MicAuthorization::Granted, None).is_ok());
    assert_eq!(
        microphone_access(MicAuthorization::Denied, Some(true)),
        Err(AudioIoError::PermissionDenied)
    );
    assert!(microphone_access(MicAuthorization::Ask, Some(true)).is_ok());
    assert_eq!(
        microphone_access(MicAuthorization::Ask, Some(false)),
        Err(AudioIoError::PermissionDenied)
    );
    assert_eq!(microphone_access(MicAuthorization::Ask, None), Err(AudioIoError::PermissionDenied));
}
