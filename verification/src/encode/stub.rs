//! Platforms without a capture backend: every codec is accepted as asked and
//! frames would go pre-encoded.

use vstd::prelude::*;
use crate::encode::{EncoderConfig, PublishPath};
use crate::stream::StreamCodec;

verus! {

pub fn clamp_codec(codec: StreamCodec) -> (r: StreamCodec)
    ensures
        r == codec,
{
    codec
}

pub fn publish_path(cfg: &EncoderConfig) -> (r: PublishPath)
    ensures
        r == PublishPath::PreEncoded,
{
    PublishPath::PreEncoded
}

} // verus!
