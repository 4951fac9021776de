use omnidisc::e2ee::{KeyRing, KeyRotation, RoomKey};
use std::sync::{Arc, Mutex};

#[derive(Default)]
struct Recorder {
    calls: Mutex<Vec<(i32, [u8; 32])>>,
}

impl Recorder {
    fn calls(&self) -> Vec<(i32, [u8; 32])> {
        self.calls.lock().map(|c| c.clone()).unwrap_or_default()
    }
}

impl KeyRing for Recorder {
    fn set_shared_key(&self, key: &[u8], index: i32) {
        let mut fixed = [0u8; 32];
        fixed[..key.len().min(32)].copy_from_slice(&key[..key.len().min(32)]);
        if let Ok(mut c) = self.calls.lock() {
            c.push((index, fixed));
        }
    }
}

fn key(byte: u8) -> [u8; 32] {
    [byte; 32]
}

#[test]
fn arming_pushes_the_first_key_at_the_epochs_ring_index() {
    let recorder = Arc::new(Recorder::default());
    let mut rotation = KeyRotation::new();
    rotation.arm(recorder.clone(), RoomKey::new(3, key(1)));
    assert_eq!(recorder.calls(), vec![(3, key(1))]);
    assert_eq!(rotation.epoch(), Some(3));
}

#[test]
fn every_epoch_change_writes_once_and_wraps_the_ring() {
    let recorder = Arc::new(Recorder::default());
    let mut rotation = KeyRotation::new();
    rotation.arm(recorder.clone(), RoomKey::new(15, key(1)));
    assert!(rotation.apply(RoomKey::new(16, key(2))));
    assert!(
        !rotation.apply(RoomKey::new(16, key(2))),
        "the same epoch must not rewrite the ring"
    );
    assert!(rotation.apply(RoomKey::new(17, key(3))));
    assert_eq!(
        recorder.calls(),
        vec![(15, key(1)), (0, key(2)), (1, key(3))]
    );
}

#[test]
fn an_unarmed_rotation_never_touches_the_ring() {
    let mut rotation: KeyRotation<Arc<Recorder>> = KeyRotation::new();
    assert!(!rotation.is_armed());
    assert!(!rotation.apply(RoomKey::new(1, key(9))));
    assert_eq!(rotation.epoch(), None);
}

#[test]
fn disarming_stops_further_writes() {
    let recorder = Arc::new(Recorder::default());
    let mut rotation = KeyRotation::new();
    rotation.arm(recorder.clone(), RoomKey::new(0, key(1)));
    rotation.disarm();
    assert!(!rotation.apply(RoomKey::new(1, key(2))));
    assert_eq!(recorder.calls().len(), 1);
}

#[test]
fn ring_index_is_the_epoch_modulo_sixteen() {
    assert_eq!(RoomKey::new(0, key(0)).ring_index(), 0);
    assert_eq!(RoomKey::new(15, key(0)).ring_index(), 15);
    assert_eq!(RoomKey::new(16, key(0)).ring_index(), 0);
    assert_eq!(RoomKey::new(u64::MAX, key(0)).ring_index(), 15);
}

#[test]
fn an_older_epoch_is_written_too() {
    let recorder = Arc::new(Recorder::default());
    let mut rotation = KeyRotation::new();
    rotation.arm(recorder.clone(), RoomKey::new(5, key(1)));
    assert!(rotation.apply(RoomKey::new(4, key(2))));
    assert_eq!(rotation.epoch(), Some(4));
    assert_eq!(recorder.calls(), vec![(5, key(1)), (4, key(2))]);
}

#[test]
fn the_debug_output_never_carries_key_material() {
    let printed = RoomKey::new(7, key(0xAB)).debug_text();
    assert!(printed.contains('7'));
    assert!(
        !printed.contains("171") && !printed.to_lowercase().contains("ab"),
        "{printed}"
    );
}
