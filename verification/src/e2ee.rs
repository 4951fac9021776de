//! Room-key plumbing for voice end-to-end encryption: carries each MLS
//! epoch's key to the media key ring, exactly once per epoch, at the ring slot
//! that the epoch maps to.

use vstd::prelude::*;

verus! {

/// Slots in the media key ring; the slot index travels with every frame, so a
/// receiver one epoch behind still decodes.
pub const KEY_RING_SIZE: u64 = 16;

/// The room key of one MLS epoch. It has no `Debug`; `debug_text` describes
/// it by its epoch alone, so key material cannot reach a log line.
#[derive(Clone, Copy, PartialEq, Eq)]
pub struct RoomKey {
    pub epoch: u64,
    pub key: [u8; 32],
}

/// The ring slot of an epoch.
pub open spec fn slot_of(epoch: u64) -> int {
    epoch as int % KEY_RING_SIZE as int
}

impl RoomKey {
    pub fn new(epoch: u64, key: [u8; 32]) -> (r: Self)
        ensures
            r.epoch == epoch,
            r.key == key,
    {
        RoomKey { epoch, key }
    }

    /// The key as a log line shows it: its epoch, and none of the key.
    pub fn debug_text(&self) -> (r: String)
        ensures
            r@ == "RoomKey { epoch: "@ + crate::text::dec_digits(self.epoch as nat) + ", .. }"@,
    {
        let mut cs = crate::text::chars_of("RoomKey { epoch: ");
        let d = crate::text::decimal(self.epoch);
        crate::text::split::extend_chars(&mut cs, d.as_slice());
        let tail = crate::text::chars_of(", .. }");
        crate::text::split::extend_chars(&mut cs, tail.as_slice());
        crate::text::string_of(cs.as_slice())
    }

    pub fn ring_index(&self) -> (r: i32)
        ensures
            r == slot_of(self.epoch),
    {
        (self.epoch % KEY_RING_SIZE) as i32
    }
}

/// Whatever holds the shared key of the media path.
pub trait KeyRing {
    fn set_shared_key(&self, key: &[u8], index: i32);
}

impl<T: KeyRing> KeyRing for std::sync::Arc<T> {
    fn set_shared_key(&self, key: &[u8], index: i32) {
        (**self).set_shared_key(key, index)
    }
}

/// Applies MLS epochs to a key ring, exactly once per epoch. The ghost log
/// records every key written to the ring, with its slot.
pub struct KeyRotation<R: KeyRing> {
    ring: Option<R>,
    epoch: u64,
    armed: bool,
    written: Ghost<Seq<(Seq<u8>, int)>>,
}

impl<R: KeyRing> KeyRotation<R> {
    pub closed spec fn spec_armed(&self) -> bool {
        self.armed
    }

    /// The epoch of the last key written.
    pub closed spec fn spec_epoch(&self) -> u64 {
        self.epoch
    }

    /// Every key written to the ring so far, with its slot, oldest first.
    pub closed spec fn writes(&self) -> Seq<(Seq<u8>, int)> {
        self.written@
    }

    pub closed spec fn wf(&self) -> bool {
        self.armed ==> self.ring is Some
    }

    pub fn new() -> (r: Self)
        ensures
            r.wf(),
            !r.spec_armed(),
            r.spec_epoch() == 0,
            r.writes() == Seq::<(Seq<u8>, int)>::empty(),
    {
        KeyRotation { ring: None, epoch: 0, armed: false, written: Ghost(Seq::empty()) }
    }

    /// Binds a ring and writes the first key at its epoch's slot.
    pub fn arm(&mut self, ring: R, first: RoomKey)
        ensures
            final(self).wf(),
            final(self).spec_armed(),
            final(self).spec_epoch() == first.epoch,
            final(self).writes() == old(self).writes().push((first.key@, slot_of(first.epoch))),
    {
        let idx = first.ring_index();
        ring.set_shared_key(&first.key, idx);
        self.ring = Some(ring);
        self.epoch = first.epoch;
        self.armed = true;
        self.written = Ghost(self.written@.push((first.key@, slot_of(first.epoch))));
    }

    /// Unbinds the ring; nothing is written until the next `arm`.
    pub fn disarm(&mut self)
        ensures
            final(self).wf(),
            !final(self).spec_armed(),
            final(self).spec_epoch() == old(self).spec_epoch(),
            final(self).writes() == old(self).writes(),
    {
        self.armed = false;
        self.ring = None;
    }

    pub fn is_armed(&self) -> (r: bool)
        ensures
            r == self.spec_armed(),
    {
        self.armed
    }

    /// The current epoch while armed.
    pub fn epoch(&self) -> (r: Option<u64>)
        ensures
            r == (if self.spec_armed() {
                Some(self.spec_epoch())
            } else {
                None
            }),
    {
        if self.armed {
            Some(self.epoch)
        } else {
            None
        }
    }

    /// Writes a new epoch's key. Returns `true` exactly when the ring was
    /// written: the rotation is armed and the epoch differs from the current
    /// one. A repeated epoch and an unarmed rotation write nothing.
    pub fn apply(&mut self, next: RoomKey) -> (r: bool)
        requires
            old(self).wf(),
        ensures
            final(self).wf(),
            r == (old(self).spec_armed() && old(self).spec_epoch() != next.epoch),
            final(self).spec_armed() == old(self).spec_armed(),
            r ==> final(self).spec_epoch() == next.epoch && final(self).writes() == old(
                self,
            ).writes().push((next.key@, slot_of(next.epoch))),
            !r ==> final(self).spec_epoch() == old(self).spec_epoch() && final(self).writes() == old(
                self,
            ).writes(),
    {
        if !self.armed {
            return false;
        }
        if self.epoch == next.epoch {
            return false;
        }
        match &self.ring {
            Some(ring) => {
                let idx = next.ring_index();
                ring.set_shared_key(&next.key, idx);
            },
            None => {
                return false;
            },
        }
        self.epoch = next.epoch;
        self.written = Ghost(self.written@.push((next.key@, slot_of(next.epoch))));
        true
    }
}

impl<R: KeyRing> Default for KeyRotation<R> {
    fn default() -> (r: Self)
        ensures
            !r.spec_armed(),
            r.writes() == Seq::<(Seq<u8>, int)>::empty(),
    {
        Self::new()
    }
}

/// Applying the same key twice writes the ring once: whatever the first
/// `apply` of `next` did (as its contract describes the state it leaves), a
/// second `apply` of `next` on that state is refused.
pub proof fn lemma_same_epoch_written_once<R: KeyRing>(
    first: KeyRotation<R>,
    mid: KeyRotation<R>,
    next: RoomKey,
)
    requires
        mid.spec_armed() == first.spec_armed(),
        (first.spec_armed() && first.spec_epoch() != next.epoch) ==> mid.spec_epoch() == next.epoch,
        !(first.spec_armed() && first.spec_epoch() != next.epoch) ==> mid.spec_epoch()
            == first.spec_epoch(),
    ensures
        !(mid.spec_armed() && mid.spec_epoch() != next.epoch),
{
}

/// Consecutive epochs wrap around the ring: epoch `e + 16` lands on the slot
/// of epoch `e`, and epochs 0 to 15 each have their own slot.
pub proof fn lemma_slots_wrap(e: u64)
    requires
        e + KEY_RING_SIZE <= u64::MAX,
    ensures
        slot_of((e + KEY_RING_SIZE) as u64) == slot_of(e),
        0 <= slot_of(e) < KEY_RING_SIZE,
        e < KEY_RING_SIZE ==> slot_of(e) == e,
{
}

} // verus!
