use omnidisc::capture::windows::{
    audio_app, copy_region, frame_due, min_frame_interval_ns, display_sources, monitor_from_id, process_loopback_supported, process_name,
    target_for, unsupported_build_error, wants_window_thumbnail, window_id, window_sources, Monitor,
    Target, Window,
};
use omnidisc::stream::{SourceId, StreamError};

#[test]
fn process_names_drop_the_directory_and_exe_endings() {
    assert_eq!(process_name("C:\\Program Files\\App\\app.exe").as_deref(), Some("app"));
    assert_eq!(process_name("C:/tools/Game.EXE").as_deref(), Some("Game"));
    assert_eq!(process_name("C:\\x\\odd.exe.exe").as_deref(), Some("odd"));
    assert_eq!(process_name("plain").as_deref(), Some("plain"));
    assert_eq!(process_name("C:\\dir\\"), None);
    assert_eq!(process_name("C:\\dir\\.exe"), None);
    let app = audio_app(42, "C:\\a\\player.exe").unwrap();
    assert_eq!(app.pid, 42);
    assert_eq!(app.name, "player");
    assert_eq!(app.bundle_id, "C:\\a\\player.exe");
    assert!(audio_app(1, "").is_none());
}

#[test]
fn loopback_needs_build_20348() {
    assert!(!process_loopback_supported(19045));
    assert!(process_loopback_supported(20348));
    assert!(process_loopback_supported(22631));
    assert_eq!(
        unsupported_build_error(19045),
        StreamError::Capture(
            "sharing application audio needs Windows 10 build 20348 or newer (this machine reports build 19045); update Windows or share without audio".into()
        )
    );
}

#[test]
fn displays_are_numbered_and_titled() {
    let found = [
        Monitor { handle: 0x10001, left: 0, top: 0, right: 1920, bottom: 1080, primary: true },
        Monitor { handle: 0x10003, left: 1920, top: 0, right: 4480, bottom: 1440, primary: false },
    ];
    let thumbs = [None, Some("data:image/jpeg;base64,AA".to_string())];
    let out = display_sources(&found, &thumbs);
    assert_eq!(out.len(), 2);
    assert_eq!(out[0].id, SourceId::Display { id: 1 });
    assert_eq!(out[0].title, "Display 1 (1920×1080, primary)");
    assert_eq!(out[1].title, "Display 2 (2560×1440)");
    assert_eq!(out[1].width, 2560);
    assert_eq!(out[1].thumbnail.as_deref(), Some("data:image/jpeg;base64,AA"));
    assert!(out[0].thumbnail.is_none());
    assert_eq!(monitor_from_id(2, &found), Ok(found[1]));
    assert_eq!(monitor_from_id(0, &found), Err(StreamError::SourceGone));
    assert_eq!(monitor_from_id(3, &found), Err(StreamError::SourceGone));
}

#[test]
fn windows_fall_back_to_the_app_name_and_stop_at_forty() {
    let mut listed = Vec::new();
    for i in 0..50u32 {
        listed.push(Window {
            id: i,
            title: if i == 0 { "  ".into() } else { format!("w{i}") },
            app: Some("app".into()),
            width: 800,
            height: 600,
        });
    }
    let out = window_sources(&listed, &[]);
    assert_eq!(out.len(), 40);
    assert_eq!(out[0].title, "app");
    assert_eq!(out[1].title, "w1");
    assert_eq!(out[39].id, SourceId::Window { id: 39 });
    assert!(wants_window_thumbnail(true, 15));
    assert!(!wants_window_thumbnail(true, 16));
    assert!(!wants_window_thumbnail(false, 0));
}

#[test]
fn capture_audio_format() {
    let f = omnidisc::capture::windows::wave_format(true);
    assert_eq!(f.format_tag, 3);
    assert_eq!(f.block_align, 8);
    assert_eq!(f.avg_bytes_per_sec, 384_000);
    let p = omnidisc::capture::windows::wave_format(false);
    assert_eq!(p.format_tag, 1);
    assert_eq!(p.bits_per_sample, 16);
    assert_eq!(p.block_align, 4);
}

#[test]
fn capture_targets_by_source() {
    let found = [
        Monitor { handle: 0x10001, left: 0, top: 0, right: 1920, bottom: 1080, primary: true },
        Monitor { handle: 0x10003, left: 1920, top: 0, right: 4480, bottom: 1440, primary: false },
    ];
    assert_eq!(target_for(&SourceId::Display { id: 2 }, &found, None), Ok(Target::Monitor(0x10003)));
    assert_eq!(target_for(&SourceId::Display { id: 3 }, &found, None), Err(StreamError::SourceGone));
    assert_eq!(target_for(&SourceId::Window { id: 7 }, &found, Some(0x2_0000_0007)), Ok(Target::Window(0x2_0000_0007)));
    assert_eq!(target_for(&SourceId::Window { id: 7 }, &found, None), Err(StreamError::SourceGone));
    assert_eq!(
        target_for(&SourceId::Synthetic { width: 64, height: 64 }, &found, None),
        Err(StreamError::Unsupported)
    );
    assert_eq!(window_id(0xffff_ffff_0001_0203), 0x0001_0203);
}

#[test]
fn frames_are_paced_to_the_frame_rate_with_slack() {
    assert_eq!(min_frame_interval_ns(60), 16_666_666);
    assert_eq!(min_frame_interval_ns(0), 1_000_000_000);
    assert!(frame_due(None, 60));
    assert!(!frame_due(Some(10_000_000), 60));
    assert!(!frame_due(Some(16_166_665), 60));
    assert!(frame_due(Some(16_166_666), 60));
    assert!(frame_due(Some(20_000_000), 60));
    assert!(!frame_due(Some(0), 0));
}

#[test]
fn the_copy_region_is_the_smaller_of_the_two_sizes() {
    assert_eq!(copy_region(1920, 1080, 2560, 1440), Some((1920, 1080)));
    assert_eq!(copy_region(1920, 1080, 1280, 2000), Some((1280, 1080)));
    assert_eq!(copy_region(1920, 1080, -5, 700), None);
    assert_eq!(copy_region(0, 1080, 100, 100), None);
}
