//! Linux: raw frames go to the media library, which picks a hardware encoder
//! itself; screen sharing stays on H.264, the one codec every desktop can
//! encode.

use vstd::prelude::*;
use crate::encode::{EncoderConfig, PublishPath};
use crate::stream::StreamCodec;

verus! {

pub fn clamp_codec(codec: StreamCodec) -> (r: StreamCodec)
    ensures
        r == StreamCodec::H264,
{
    StreamCodec::H264
}

pub fn publish_path(cfg: &EncoderConfig) -> (r: PublishPath)
    ensures
        r == PublishPath::Raw,
{
    PublishPath::Raw
}

} // verus!
