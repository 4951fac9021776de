use omnidisc::encode::annexb::{annexb_frame, units_to_annexb};
use omnidisc::encode::windows::frame_payload;

#[test]
fn length_prefixed_units_get_start_codes() {
    let avcc = [0u8, 0, 0, 2, 0x65, 0xAA, 0, 0, 0, 1, 0x41];
    let mut out = vec![9u8];
    assert!(units_to_annexb(&mut out, &avcc, 4));
    assert_eq!(out, vec![9, 0, 0, 0, 1, 0x65, 0xAA, 0, 0, 0, 1, 0x41]);
}

#[test]
fn a_length_past_the_end_drops_the_frame_and_a_short_tail_is_ignored() {
    let mut out = Vec::new();
    assert!(!units_to_annexb(&mut out, &[0, 5, 1, 2], 2));
    let mut out = Vec::new();
    assert!(units_to_annexb(&mut out, &[1, 7, 0], 1));
    assert_eq!(out, vec![0, 0, 0, 1, 7, 0, 0, 0, 1]);
    let mut out = Vec::new();
    assert!(units_to_annexb(&mut out, &[0, 1, 7, 5], 2));
    assert_eq!(out, vec![0, 0, 0, 1, 7]);
    let mut out = Vec::new();
    assert!(units_to_annexb(&mut out, &[], 4));
    assert!(out.is_empty());
}

#[test]
fn keyframes_carry_the_parameter_sets() {
    let mut stored: Vec<Vec<u8>> = vec![vec![0x67, 1]];
    let frame = [0u8, 1, 0x65];
    let delta = annexb_frame(&mut stored, false, vec![vec![0x67, 9]], &frame, 2).unwrap();
    assert_eq!(delta, vec![0, 0, 0, 1, 0x65]);
    assert_eq!(stored, vec![vec![0x67, 1]]);
    let key = annexb_frame(&mut stored, true, vec![vec![0x67, 2], vec![0x68]], &frame, 2).unwrap();
    assert_eq!(key, vec![0, 0, 0, 1, 0x67, 2, 0, 0, 0, 1, 0x68, 0, 0, 0, 1, 0x65]);
    let again = annexb_frame(&mut stored, true, Vec::new(), &frame, 2).unwrap();
    assert_eq!(again, key);
    assert!(annexb_frame(&mut stored, true, Vec::new(), &[0, 9, 1], 2).is_none());
}

#[test]
fn keyframes_without_inline_parameter_sets_get_the_sequence_header() {
    let header = [0u8, 0, 0, 1, 0x67, 0, 0, 0, 1, 0x68];
    let idr = [0u8, 0, 0, 1, 0x65, 0x88];
    let mut expected = header.to_vec();
    expected.extend_from_slice(&idr);
    assert_eq!(frame_payload(true, &header, &idr), expected);
    assert_eq!(frame_payload(false, &header, &idr), idr.to_vec());
    let inline = [0u8, 0, 1, 0x67, 1];
    assert_eq!(frame_payload(true, &header, &inline), inline.to_vec());
    assert_eq!(frame_payload(true, &[], &idr), idr.to_vec());
}
