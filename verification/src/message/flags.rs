//! Bits of `Message::flags`.

use vstd::prelude::*;

verus! {

pub const SUPPRESS_EMBEDS: u32 = 1;

pub const SUPPRESS_NOTIFICATIONS: u32 = 2;

pub const VOICE_MESSAGE: u32 = 4;

pub const EPHEMERAL: u32 = 8;

} // verus!
