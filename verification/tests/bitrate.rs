use omnidisc::bitrate::{
    framerate_presets, matrix_kbps, nearest_framerate, nearest_resolution, resolution_presets,
    width_for_height, BitrateSource, Codec, StreamingPolicy,
};

#[test]
fn matrix_is_monotonic() {
    let resolutions = resolution_presets();
    for w in resolutions.windows(2) {
        assert!(matrix_kbps(w[1], 30).unwrap() > matrix_kbps(w[0], 30).unwrap());
    }
    let framerates = framerate_presets();
    for f in framerates.windows(2) {
        assert!(matrix_kbps(1080, f[1]).unwrap() > matrix_kbps(1080, f[0]).unwrap());
    }
}

#[test]
fn policy_clamps_and_overrides() {
    let mut p = StreamingPolicy {
        max_kbps: 8_000,
        ..Default::default()
    };
    assert_eq!(p.kbps_for(2160, 120, matrix_kbps(2160, 120).unwrap()), 8_000);
    p.overrides.insert("720p30".into(), 1_000);
    assert_eq!(p.kbps_for(720, 30, matrix_kbps(720, 30).unwrap()), 1_000);
    assert_eq!(p.clamp_custom(12_345), 8_000);
    p.allow_custom_bitrate = false;
    assert_eq!(p.clamp_custom(100), 500);
}

#[test]
fn overrides_behave_as_a_map() {
    let mut a = omnidisc::bitrate::overrides::BitrateOverrides::new();
    assert!(a.is_empty());
    assert_eq!(a.insert("720p30".into(), 1_000), None);
    assert_eq!(a.insert("1080p60".into(), 6_000), None);
    assert_eq!(a.insert("720p30".into(), 1_200), Some(1_000));
    assert_eq!(a.get("720p30"), Some(1_200));
    assert_eq!(a.get("540p15"), None);
    let mut b = omnidisc::bitrate::overrides::BitrateOverrides::new();
    b.insert("1080p60".into(), 6_000);
    b.insert("720p30".into(), 1_200);
    assert!(a == b);
    b.insert("720p30".into(), 1_300);
    assert!(a != b);
    let mut pairs = a.to_vec();
    pairs.sort();
    assert_eq!(pairs, vec![("1080p60".to_string(), 6_000), ("720p30".to_string(), 1_200)]);
    assert_eq!(omnidisc::bitrate::override_key_string(720, 30), "720p30");
}

#[test]
fn hevc_only_for_4k_above_60() {
    let p = StreamingPolicy::default();
    assert_eq!(p.codec_for(2160, 120), Codec::H265);
    assert_eq!(p.codec_for(2160, 60), Codec::H264);
    assert_eq!(p.codec_for(1440, 120), Codec::H264);
    let off = StreamingPolicy {
        allow_h265: false,
        ..Default::default()
    };
    assert_eq!(off.codec_for(2160, 120), Codec::H264);
}

#[test]
fn custom_bitrates_are_stepped_and_clamped() {
    let mut p = StreamingPolicy {
        max_kbps: 8_000,
        ..Default::default()
    };
    assert_eq!(p.clamp_custom(12_345), 8_000);
    assert_eq!(p.clamp_custom(1_234), 1_000);
    assert_eq!(p.clamp_custom(100), 500);
    p.allow_custom_bitrate = false;
    assert_eq!(p.clamp_custom(100), 500);
    assert_eq!(p.clamp_custom(1_234), 1_234);
}

#[test]
fn matrix_values_at_the_corners() {
    assert_eq!(matrix_kbps(540, 15), Some(975));
    assert_eq!(matrix_kbps(1080, 60), Some(8_000));
    assert_eq!(matrix_kbps(2160, 144), Some(46_400));
    assert_eq!(matrix_kbps(1000, 30), None);
    assert_eq!(matrix_kbps(1080, 50), None);
}

#[test]
fn presets_and_nearest() {
    assert_eq!(resolution_presets(), vec![540, 720, 1080, 1440, 2160]);
    assert_eq!(framerate_presets(), vec![15, 30, 60, 90, 120, 144]);
    assert_eq!(width_for_height(1080), 1920);
    assert_eq!(width_for_height(1000), 1776);
    assert_eq!(nearest_resolution(3440, 1440), 1440);
    assert_eq!(nearest_framerate(75), 60);
    let p = StreamingPolicy {
        max_height: 1080,
        max_fps: 60,
        ..Default::default()
    };
    assert_eq!(p.allowed_resolutions(), vec![540, 720, 1080]);
    assert_eq!(p.allowed_framerates(), vec![15, 30, 60]);
}

#[test]
fn the_source_of_a_share_bitrate() {
    let mut policy = StreamingPolicy::default();
    policy.allow_custom_bitrate = true;
    policy.min_kbps = 500;
    policy.max_kbps = 8_000;
    policy.step_kbps = 250;
    assert_eq!(policy.bitrate_source(1080, Some(720), Some(3_333)), BitrateSource::Custom(3_250));
    assert_eq!(policy.bitrate_source(1080, Some(720), Some(100)), BitrateSource::Custom(500));
    assert_eq!(policy.bitrate_source(1080, Some(1080), None), BitrateSource::Preset(1080));
    assert_eq!(policy.bitrate_source(1080, Some(1440), None), BitrateSource::Preset(1440));
    assert_eq!(policy.bitrate_source(1440, Some(1080), None), BitrateSource::Native);
    assert_eq!(policy.bitrate_source(1440, None, None), BitrateSource::Native);
}
