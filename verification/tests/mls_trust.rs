use omnidisc::mls::fingerprint::fingerprint;
use omnidisc::mls::trust::{
    check_key_package, check_welcome, leaves_to_remove, members, mls_failure, DeviceRef, Leaf,
};
use omnidisc::mls::MlsError;

fn alice() -> DeviceRef {
    DeviceRef::new("alice".to_string(), "laptop".to_string(), vec![1, 2, 3])
}

#[test]
fn a_device_matches_only_its_identity_and_key() {
    let a = alice();
    assert!(a.matches("alice", "laptop", &[1, 2, 3]));
    assert!(!a.matches("alice", "phone", &[1, 2, 3]));
    assert!(!a.matches("alice", "laptop", &[1, 2, 4]));
    assert!(!a.matches("mallory", "laptop", &[1, 2, 3]));
}

#[test]
fn key_packages_must_be_the_claimed_device() {
    let a = alice();
    assert_eq!(check_key_package(&a, "alice", "laptop", &[1, 2, 3]), Ok(()));
    assert_eq!(
        check_key_package(&a, "mallory", "laptop", &[1, 2, 3]),
        Err(MlsError::Untrusted(
            "a key package claimed for alice:laptop carries the identity mallory:laptop".to_string()
        ))
    );
    assert_eq!(
        check_key_package(&a, "alice", "laptop", &[9]),
        Err(MlsError::Untrusted(
            "the key package for alice:laptop is signed by a key that device never published".to_string()
        ))
    );
}

#[test]
fn welcomes_are_checked_for_group_novelty_and_sender() {
    let allowed = vec![alice()];
    assert_eq!(check_welcome("g1", "g1", false, &allowed, "alice", "laptop", &[1, 2, 3]), Ok(()));
    assert_eq!(
        check_welcome("g1", "g2", false, &allowed, "alice", "laptop", &[1, 2, 3]),
        Err(MlsError::Untrusted("a Welcome announced as g1 is really for g2".to_string()))
    );
    assert_eq!(
        check_welcome("g1", "g1", true, &allowed, "alice", "laptop", &[1, 2, 3]),
        Err(MlsError::GroupExists("g1".to_string()))
    );
    assert_eq!(
        check_welcome("g1", "g1", false, &allowed, "eve", "box", &[1, 2, 3]),
        Err(MlsError::Untrusted("eve:box is not a known device of anyone in g1".to_string()))
    );
}

#[test]
fn library_failures_name_the_step_unless_we_were_evicted() {
    assert_eq!(mls_failure("merge", "UseAfterEviction(x)"), MlsError::Evicted);
    assert_eq!(mls_failure("merge", "Oops"), MlsError::Mls("merge: Oops".to_string()));
}

fn leaf(index: u32, user: &str, device: &str, key: &[u8]) -> Leaf {
    Leaf {
        index,
        user_id: user.to_string(),
        device_id: device.to_string(),
        signature_key: key.to_vec(),
    }
}

#[test]
fn the_roster_marks_this_device_and_fingerprints_every_key() {
    let leaves = vec![leaf(0, "alice", "laptop", &[1]), leaf(3, "bob", "phone", &[2])];
    let roster = members(&leaves, "bob", "phone");
    assert_eq!(roster.len(), 2);
    assert!(!roster[0].is_me && roster[1].is_me);
    assert_eq!(roster[0].user_id, "alice");
    assert_eq!(roster[1].device_id, "phone");
    assert_eq!(roster[0].fingerprint, fingerprint(&[1]));
    assert_eq!(roster[1].fingerprint.len(), 39);
}

#[test]
fn removal_takes_out_every_leaf_of_the_named_devices() {
    let leaves = vec![
        leaf(0, "alice", "laptop", &[1]),
        leaf(3, "bob", "phone", &[2]),
        leaf(5, "alice", "phone", &[3]),
    ];
    assert_eq!(leaves_to_remove(&leaves, &["phone".to_string()]), Ok(vec![3, 5]));
    assert_eq!(
        leaves_to_remove(&leaves, &["tablet".to_string()]),
        Err(MlsError::Malformed("none of those devices are in the group".to_string()))
    );
}
