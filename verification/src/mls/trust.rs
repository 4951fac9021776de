//! What the MLS client checks before it trusts what the server hands it: a
//! key package must carry the identity and signature key of the device it
//! was claimed for, and a Welcome must be for the group announced, new to
//! this device, and sent by a device the caller knows. Also the roster of a
//! group as the caller sees it, and which leaves a removal takes out.

use vstd::prelude::*;
use crate::text::concat_str;
use crate::livechat::str_eq;
use crate::mls::MlsError;

verus! {

/// A device the caller has confirmed out of the MLS band: the identity it
/// was asked about and the signature key that device published on the
/// server.
#[derive(Clone, Debug, PartialEq, Eq)]
pub struct DeviceRef {
    pub user_id: String,
    pub device_id: String,
    pub signature_key: Vec<u8>,
}

/// Whether two byte strings are equal.
pub fn bytes_eq(a: &[u8], b: &[u8]) -> (r: bool)
    ensures
        r == (a@ == b@),
{
    if a.len() != b.len() {
        return false;
    }
    let mut i: usize = 0;
    while i < a.len()
        invariant
            a@.len() == b@.len(),
            0 <= i <= a@.len(),
            forall|k: int| 0 <= k < i ==> a@[k] == b@[k],
        decreases a@.len() - i,
    {
        if a[i] != b[i] {
            return false;
        }
        i = i + 1;
    }
    assert(a@ =~= b@);
    true
}

impl DeviceRef {
    pub fn new(user_id: String, device_id: String, key: Vec<u8>) -> (r: Self)
        ensures
            r.user_id@ == user_id@,
            r.device_id@ == device_id@,
            r.signature_key@ == key@,
    {
        DeviceRef { user_id, device_id, signature_key: key }
    }

    /// Whether this is the device with that identity and signature key.
    pub fn matches(&self, user_id: &str, device_id: &str, key: &[u8]) -> (r: bool)
        ensures
            r == (self.user_id@ == user_id@ && self.device_id@ == device_id@
                && self.signature_key@ == key@),
    {
        str_eq(self.user_id.as_str(), user_id) && str_eq(self.device_id.as_str(), device_id)
            && bytes_eq(self.signature_key.as_slice(), key)
    }
}

/// The error of an MLS library failure: `Evicted` where its debug text names
/// `UseAfterEviction`, otherwise the failed step and that text.
pub fn mls_failure(what: &str, debug_text: &str) -> (r: MlsError)
    ensures
        crate::text::seq_contains(debug_text@, "UseAfterEviction"@) ==> r == MlsError::Evicted,
        !crate::text::seq_contains(debug_text@, "UseAfterEviction"@) ==> (r matches MlsError::Mls(m)
            && m@ == what@ + ": "@ + debug_text@),
{
    if crate::text::str_contains(debug_text, "UseAfterEviction") {
        MlsError::Evicted
    } else {
        MlsError::Mls(concat_str(concat_str(what, ": ").as_str(), debug_text))
    }
}

/// "a key package claimed for U:D carries the identity u:d".
pub open spec fn wrong_identity_message(expected: DeviceRef, user_id: Seq<char>, device_id: Seq<char>) -> Seq<char> {
    "a key package claimed for "@ + expected.user_id@ + ":"@ + expected.device_id@
        + " carries the identity "@ + user_id + ":"@ + device_id
}

/// "the key package for U:D is signed by a key that device never published".
pub open spec fn wrong_key_message(expected: DeviceRef) -> Seq<char> {
    "the key package for "@ + expected.user_id@ + ":"@ + expected.device_id@
        + " is signed by a key that device never published"@
}

/// Checks a key package's leaf against the device it was claimed for: the
/// identity first, then the signature key.
pub fn check_key_package(expected: &DeviceRef, user_id: &str, device_id: &str, leaf_key: &[u8]) -> (r:
    Result<(), MlsError>)
    ensures
        (user_id@ != expected.user_id@ || device_id@ != expected.device_id@) ==> (r matches Err(
            MlsError::Untrusted(m),
        ) && m@ == wrong_identity_message(*expected, user_id@, device_id@)),
        (user_id@ == expected.user_id@ && device_id@ == expected.device_id@ && leaf_key@
            != expected.signature_key@) ==> (r matches Err(MlsError::Untrusted(m)) && m@
            == wrong_key_message(*expected)),
        (user_id@ == expected.user_id@ && device_id@ == expected.device_id@ && leaf_key@
            == expected.signature_key@) ==> r is Ok,
{
    if !str_eq(user_id, expected.user_id.as_str()) || !str_eq(device_id, expected.device_id.as_str()) {
        let m = concat_str("a key package claimed for ", expected.user_id.as_str());
        let m = concat_str(m.as_str(), ":");
        let m = concat_str(m.as_str(), expected.device_id.as_str());
        let m = concat_str(m.as_str(), " carries the identity ");
        let m = concat_str(m.as_str(), user_id);
        let m = concat_str(m.as_str(), ":");
        let m = concat_str(m.as_str(), device_id);
        return Err(MlsError::Untrusted(m));
    }
    if !bytes_eq(leaf_key, expected.signature_key.as_slice()) {
        let m = concat_str("the key package for ", expected.user_id.as_str());
        let m = concat_str(m.as_str(), ":");
        let m = concat_str(m.as_str(), expected.device_id.as_str());
        let m = concat_str(m.as_str(), " is signed by a key that device never published");
        return Err(MlsError::Untrusted(m));
    }
    Ok(())
}

/// Whether a device with that identity and key is among `allowed`.
pub open spec fn known_device(allowed: Seq<DeviceRef>, user_id: Seq<char>, device_id: Seq<char>, key: Seq<u8>) -> bool {
    exists|i: int|
        0 <= i < allowed.len() && (#[trigger] allowed[i]).user_id@ == user_id && allowed[i].device_id@
            == device_id && allowed[i].signature_key@ == key
}

/// Checks a Welcome before joining: it must be for the group it was
/// announced as, a group this device is not in yet, and come from one of
/// the allowed devices; in that order.
pub fn check_welcome(
    expected_group_id: &str,
    group_id: &str,
    in_group: bool,
    allowed: &[DeviceRef],
    sender_user: &str,
    sender_device: &str,
    sender_key: &[u8],
) -> (r: Result<(), MlsError>)
    ensures
        group_id@ != expected_group_id@ ==> (r matches Err(MlsError::Untrusted(m)) && m@
            == "a Welcome announced as "@ + expected_group_id@ + " is really for "@ + group_id@),
        group_id@ == expected_group_id@ && in_group ==> (r matches Err(MlsError::GroupExists(g))
            && g@ == group_id@),
        group_id@ == expected_group_id@ && !in_group && !known_device(
            allowed@,
            sender_user@,
            sender_device@,
            sender_key@,
        ) ==> (r matches Err(MlsError::Untrusted(m)) && m@ == sender_user@ + ":"@ + sender_device@
            + " is not a known device of anyone in "@ + group_id@),
        group_id@ == expected_group_id@ && !in_group && known_device(
            allowed@,
            sender_user@,
            sender_device@,
            sender_key@,
        ) ==> r is Ok,
{
    if !str_eq(group_id, expected_group_id) {
        let m = concat_str("a Welcome announced as ", expected_group_id);
        let m = concat_str(m.as_str(), " is really for ");
        let m = concat_str(m.as_str(), group_id);
        return Err(MlsError::Untrusted(m));
    }
    if in_group {
        return Err(MlsError::GroupExists(group_id.to_string()));
    }
    let mut i: usize = 0;
    while i < allowed.len()
        invariant
            0 <= i <= allowed@.len(),
            group_id@ == expected_group_id@,
            !in_group,
            forall|k: int| 0 <= k < i ==> !((#[trigger] allowed@[k]).user_id@ == sender_user@
                && allowed@[k].device_id@ == sender_device@ && allowed@[k].signature_key@
                == sender_key@),
        decreases allowed@.len() - i,
    {
        if allowed[i].matches(sender_user, sender_device, sender_key) {
            assert(known_device(allowed@, sender_user@, sender_device@, sender_key@));
            return Ok(());
        }
        i = i + 1;
    }
    let m = concat_str(sender_user, ":");
    let m = concat_str(m.as_str(), sender_device);
    let m = concat_str(m.as_str(), " is not a known device of anyone in ");
    let m = concat_str(m.as_str(), group_id);
    Err(MlsError::Untrusted(m))
}

/// A member of a group as the caller sees it: its identity, the
/// fingerprint of its signature key, and whether it is this device.
#[derive(Clone, Debug)]
pub struct MemberInfo {
    pub user_id: String,
    pub device_id: String,
    pub fingerprint: String,
    pub is_me: bool,
}

/// A leaf of a group: its index, the identity in its credential and its
/// signature key.
#[derive(Clone, Debug)]
pub struct Leaf {
    pub index: u32,
    pub user_id: String,
    pub device_id: String,
    pub signature_key: Vec<u8>,
}

/// The roster entry of `leaf` for the device `me_user`:`me_device`.
pub open spec fn member_ok(m: MemberInfo, leaf: Leaf, me_user: Seq<char>, me_device: Seq<char>) -> bool {
    &&& m.user_id@ == leaf.user_id@
    &&& m.device_id@ == leaf.device_id@
    &&& m.fingerprint@ == crate::mls::fingerprint::fingerprint_spec(leaf.signature_key@)
    &&& m.is_me == (leaf.user_id@ == me_user && leaf.device_id@ == me_device)
}

/// The roster of a group's leaves, in order, as seen by the device
/// `me_user`:`me_device`.
pub fn members(leaves: &[Leaf], me_user: &str, me_device: &str) -> (r: Vec<MemberInfo>)
    ensures
        r@.len() == leaves@.len(),
        forall|i: int| 0 <= i < leaves@.len() ==> member_ok(#[trigger] r@[i], leaves@[i], me_user@, me_device@),
{
    let mut out: Vec<MemberInfo> = Vec::new();
    let mut i: usize = 0;
    while i < leaves.len()
        invariant
            0 <= i <= leaves@.len(),
            out@.len() == i,
            forall|k: int| 0 <= k < i ==> member_ok(#[trigger] out@[k], leaves@[k], me_user@, me_device@),
        decreases leaves@.len() - i,
    {
        let leaf = &leaves[i];
        let is_me = str_eq(leaf.user_id.as_str(), me_user) && str_eq(leaf.device_id.as_str(), me_device);
        out.push(
            MemberInfo {
                user_id: crate::text::copy_string(leaf.user_id.as_str()),
                device_id: crate::text::copy_string(leaf.device_id.as_str()),
                fingerprint: crate::mls::fingerprint::fingerprint(leaf.signature_key.as_slice()),
                is_me,
            },
        );
        i = i + 1;
    }
    out
}

/// The indices of the leaves whose device is among `device_ids`, in order.
pub open spec fn leaves_of(leaves: Seq<Leaf>, device_ids: Seq<Seq<char>>) -> Seq<u32>
    decreases leaves.len(),
{
    if leaves.len() == 0 {
        Seq::empty()
    } else {
        let rest = leaves_of(leaves.drop_last(), device_ids);
        if device_ids.contains(leaves.last().device_id@) {
            rest.push(leaves.last().index)
        } else {
            rest
        }
    }
}

/// The leaves that removing the devices `device_ids` takes out; an error
/// where none of them is in the group.
pub fn leaves_to_remove(leaves: &[Leaf], device_ids: &[String]) -> (r: Result<Vec<u32>, MlsError>)
    ensures
        leaves_of(leaves@, crate::livechat::strings_view(device_ids@)).len() == 0 ==> (r matches Err(
            MlsError::Malformed(m),
        ) && m@ == "none of those devices are in the group"@),
        leaves_of(leaves@, crate::livechat::strings_view(device_ids@)).len() > 0 ==> (r matches Ok(v)
            && v@ == leaves_of(leaves@, crate::livechat::strings_view(device_ids@))),
{
    let ghost ids = crate::livechat::strings_view(device_ids@);
    let mut out: Vec<u32> = Vec::new();
    let mut i: usize = 0;
    assert(leaves@.take(0) =~= Seq::<Leaf>::empty());
    while i < leaves.len()
        invariant
            0 <= i <= leaves@.len(),
            ids == crate::livechat::strings_view(device_ids@),
            out@ == leaves_of(leaves@.take(i as int), ids),
        decreases leaves@.len() - i,
    {
        assert(leaves@.take(i + 1).drop_last() =~= leaves@.take(i as int));
        assert(leaves@.take(i + 1).last() == leaves@[i as int]);
        if crate::engine::room::contains_str(device_ids, leaves[i].device_id.as_str()) {
            out.push(leaves[i].index);
        }
        i = i + 1;
    }
    assert(leaves@.take(leaves@.len() as int) =~= leaves@);
    if out.len() == 0 {
        return Err(MlsError::Malformed("none of those devices are in the group".to_string()));
    }
    Ok(out)
}

} // verus!
