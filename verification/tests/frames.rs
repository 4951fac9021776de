use omnidisc::capture::nv12::Nv12Cpu;
use omnidisc::viewer::{pack_i420, pack_plane};

#[test]
fn rows_drop_their_stride_padding() {
    let data: Vec<u8> = (0u8..12).collect();
    assert_eq!(pack_plane(&data, 4, 3, 3), vec![0, 1, 2, 4, 5, 6, 8, 9, 10]);
}

#[test]
fn rows_past_the_data_are_black() {
    let data: Vec<u8> = vec![7; 6];
    assert_eq!(pack_plane(&data, 4, 2, 3), vec![7, 7, 7, 7, 16, 16]);
    assert_eq!(pack_plane(&[], 0, 2, 1), vec![16, 16]);
    assert!(pack_plane(&data, 4, 0, 3).is_empty());
}

#[test]
fn an_i420_frame_packs_each_plane() {
    let y: Vec<u8> = (0u8..8).collect();
    let u = vec![100u8, 101, 0, 0];
    let v = vec![200u8];
    let p = pack_i420((&y, &u, &v), (4, 2, 2), 2, 2, 1, 2, true);
    assert_eq!(p.y, vec![0, 1, 4, 5]);
    assert_eq!(p.u, vec![100, 0]);
    assert_eq!(p.v, vec![200, 16]);
    assert_eq!((p.width, p.height, p.full_range), (2, 2, true));
}

#[test]
fn nv12_splits_after_the_luma_rows() {
    let f = Nv12Cpu { data: (0u8..10).collect(), stride_y: 4, stride_uv: 4, width: 4, height: 2 };
    let (y, uv) = f.planes();
    assert_eq!(y, &[0, 1, 2, 3, 4, 5, 6, 7]);
    assert_eq!(uv, &[8, 9]);
    let short = Nv12Cpu { data: vec![1, 2, 3], stride_y: 4, stride_uv: 4, width: 4, height: 2 };
    let (y, uv) = short.planes();
    assert_eq!(y, &[1, 2, 3]);
    assert!(uv.is_empty());
}
