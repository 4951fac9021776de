use omnidisc::encode::videotoolbox::{data_rate_limit, session_settings, VtProfile};
use omnidisc::encode::windows::{mf_settings, pack2, H264Profile};
use omnidisc::encode::EncoderConfig;
use omnidisc::stream::{StreamCodec, StreamMode};

fn config(codec: StreamCodec, mode: StreamMode, kbps: u32, fps: u16) -> EncoderConfig {
    EncoderConfig { width: 1920, height: 1080, fps, codec, bitrate_kbps: kbps, mode }
}

#[test]
fn videotoolbox_limits_bytes_to_half_again_the_average() {
    assert_eq!(data_rate_limit(8_000_000), 1_500_000);
    assert_eq!(data_rate_limit(15), 1);
    let s = session_settings(&config(StreamCodec::H264, StreamMode::Game, 6_000, 60));
    assert_eq!(s.average_bps, 6_000_000);
    assert_eq!(s.bytes_per_second_limit, 1_125_000);
    assert_eq!(s.profile, VtProfile::H264HighAutoLevel);
    assert_eq!(s.max_keyframe_interval, 240);
    assert!(s.cabac);
    assert!(s.prioritize_speed);
    let h = session_settings(&config(StreamCodec::H265, StreamMode::Text, 2_500, 30));
    assert_eq!(h.profile, VtProfile::HevcMainAutoLevel);
    assert!(!h.cabac);
    assert!(!h.prioritize_speed);
}

#[test]
fn media_foundation_settings_follow_the_config() {
    assert_eq!(pack2(1920, 1080), (1920u64 << 32) | 1080);
    let s = mf_settings(&config(StreamCodec::H264, StreamMode::Game, 0, 0));
    assert_eq!(s.bitrate_bps, 1_000);
    assert_eq!(s.frame_rate, (1u64 << 32) | 1);
    assert_eq!(s.frame_size, (1920u64 << 32) | 1080);
    assert_eq!(s.profile, H264Profile::Main);
    assert_eq!(s.gop_size, 240);
    let t = mf_settings(&config(StreamCodec::H264, StreamMode::Text, 4_500, 30));
    assert_eq!(t.bitrate_bps, 4_500_000);
    assert_eq!(t.frame_rate, (30u64 << 32) | 1);
    assert_eq!(t.profile, H264Profile::High);
}
