use omnidisc::capture::linux::portal_failure;
use omnidisc::capture::macos::{capture_failure, thumbnail_height};
use omnidisc::stream::StreamError;

#[test]
fn refusals_read_as_missing_permission() {
    assert_eq!(capture_failure(true, false, "x"), StreamError::Permission);
    assert_eq!(capture_failure(false, true, "x"), StreamError::Permission);
    assert_eq!(capture_failure(false, false, "The user DECLINED TCCs"), StreamError::Permission);
    assert_eq!(capture_failure(false, false, "error -3801"), StreamError::Permission);
    assert_eq!(capture_failure(false, false, "No Permission"), StreamError::Permission);
    assert_eq!(
        capture_failure(false, false, "stream stopped"),
        StreamError::Capture("stream stopped".to_string())
    );
}

#[test]
fn thumbnails_keep_the_aspect_within_bounds() {
    assert_eq!(thumbnail_height(1920, 1080), 180);
    assert_eq!(thumbnail_height(100, 10_000), 320);
    assert_eq!(thumbnail_height(10_000, 1), 2);
    assert_eq!(thumbnail_height(0, 1), 320);
}

#[test]
fn a_cancelled_portal_is_a_missing_permission() {
    assert_eq!(portal_failure("Request CANCELLED by user"), StreamError::Permission);
    assert_eq!(
        portal_failure("no portal"),
        StreamError::Capture("screen sharing portal: no portal".to_string())
    );
}
