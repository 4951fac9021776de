use omnidisc::capture::downscale_bgrx;
use omnidisc::capture::linux::{output_size, pack_rows, swap_red_blue};

#[test]
fn downscale_halves_and_averages() {
    // 2x2 image, one white pixel and three black, scaled to 1x1: the average
    // of the block, not a sample of one corner.
    let src = vec![
        255, 255, 255, 255, 0, 0, 0, 255, // row 0
        0, 0, 0, 255, 0, 0, 0, 255, // row 1
    ];
    let out = downscale_bgrx(&src, 2, 2, 8, 1, 1);
    assert_eq!(out.len(), 4);
    assert_eq!(out[0], 63);
    assert_eq!(out[3], 255);
}

#[test]
fn downscale_respects_padded_stride() {
    // 1x2 visible pixels in rows padded to 12 bytes: the padding must not
    // bleed into the result.
    let mut src = vec![0u8; 24];
    src[0..4].copy_from_slice(&[10, 20, 30, 255]);
    src[12..16].copy_from_slice(&[10, 20, 30, 255]);
    let out = downscale_bgrx(&src, 1, 2, 12, 1, 1);
    assert_eq!(&out[0..3], &[10, 20, 30]);
}

#[test]
fn same_size_copies_colour_and_forces_alpha() {
    let src = vec![1, 2, 3, 4, 5, 6, 7, 8];
    let out = downscale_bgrx(&src, 2, 1, 8, 2, 1);
    assert_eq!(out, vec![1, 2, 3, 255, 5, 6, 7, 255]);
}

#[test]
fn capped_presets_scale_the_width_and_keep_sizes_even() {
    assert_eq!(output_size(2560, 1440, Some(720)), Some((1280, 720)));
    assert_eq!(output_size(1366, 768, Some(480)), Some((854, 480)));
    assert_eq!(output_size(1921, 1081, None), Some((1920, 1080)));
    assert_eq!(output_size(1920, 1080, Some(1080)), Some((1920, 1080)));
    assert_eq!(output_size(1920, 1080, Some(1441)), Some((1920, 1080)));
    assert_eq!(output_size(3, 1000, Some(1)), Some((2, 0)));
    assert_eq!(output_size(0, 1080, Some(720)), None);
    assert_eq!(output_size(1920, 0, None), None);
}

#[test]
fn rows_are_packed_and_short_buffers_leave_zeros() {
    // Two one-pixel rows, eight bytes apart; the second row is cut short.
    let bytes = vec![1, 2, 3, 4, 9, 9, 9, 9, 5, 6, 7];
    assert_eq!(pack_rows(&bytes, 1, 2, 8), vec![1, 2, 3, 4, 0, 0, 0, 0]);
    let whole = vec![1, 2, 3, 4, 9, 9, 9, 9, 5, 6, 7, 8];
    assert_eq!(pack_rows(&whole, 1, 2, 8), vec![1, 2, 3, 4, 5, 6, 7, 8]);
    assert_eq!(pack_rows(&whole, 0, 2, 8), Vec::<u8>::new());
}

#[test]
fn red_and_blue_swap_in_whole_pixels_only() {
    let mut frame = vec![1, 2, 3, 4, 5, 6, 7, 8, 9, 10];
    swap_red_blue(&mut frame);
    assert_eq!(frame, vec![3, 2, 1, 4, 7, 6, 5, 8, 9, 10]);
}
