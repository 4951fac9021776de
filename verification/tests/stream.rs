use omnidisc::stream::{
    codec_from_policy, codec_of_mime, keeps_reported_encoder, resolve_geometry, StreamCodec,
};

#[test]
fn geometry_keeps_aspect_and_never_upscales() {
    assert_eq!(resolve_geometry(3420, 2214, Some(1080)), (1668, 1080));
    assert_eq!(resolve_geometry(1920, 1080, Some(2160)), (1920, 1080));
    assert_eq!(resolve_geometry(3440, 1440, None), (3440, 1440));
    let (w, h) = resolve_geometry(1365, 767, Some(720));
    assert_eq!(w % 2, 0);
    assert_eq!(h % 2, 0);
}

#[test]
fn odd_native_sizes_are_rounded_down_to_even() {
    assert_eq!(resolve_geometry(1365, 767, None), (1364, 766));
    assert_eq!(resolve_geometry(1365, 767, Some(720)), (1280, 720));
}

#[test]
fn the_published_codec_and_the_reported_one() {
    let mut policy = omnidisc::bitrate::StreamingPolicy::default();
    policy.allow_h265 = true;
    policy.preferred_codec = omnidisc::bitrate::Codec::Av1;
    assert_eq!(codec_from_policy(&policy, 2160, 120), StreamCodec::H265);
    assert_eq!(codec_from_policy(&policy, 1_000_000, 61), StreamCodec::H265);
    assert_eq!(codec_from_policy(&policy, 2160, 60), StreamCodec::H264);
    policy.allow_h265 = false;
    assert_eq!(codec_from_policy(&policy, 2160, 120), StreamCodec::H264);

    assert_eq!(codec_of_mime("video/H265"), Some(StreamCodec::H265));
    assert_eq!(codec_of_mime("video/HEVC"), Some(StreamCodec::H265));
    assert_eq!(codec_of_mime("video/H264"), Some(StreamCodec::H264));
    assert_eq!(codec_of_mime("video/VP8"), None);

    assert!(keeps_reported_encoder("NvEnc"));
    assert!(!keeps_reported_encoder(""));
    assert!(!keeps_reported_encoder("PassThrough"));
}
