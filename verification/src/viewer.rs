//! Decoded frames as the viewer uploads them: the three I420 planes, each
//! packed row after row without the padding that the decoder's strides
//! leave.

use vstd::prelude::*;

verus! {

/// The Y, U and V planes of a frame, each packed tightly, and its size.
#[derive(Debug, Clone)]
pub struct Planes {
    pub y: Vec<u8>,
    pub u: Vec<u8>,
    pub v: Vec<u8>,
    pub width: u32,
    pub height: u32,
    pub full_range: bool,
}

/// Byte `k` of a plane of `width` by `height` packed from `data` with rows
/// `stride` apart: the byte in place where its whole row lies inside
/// `data`, 16 (black) for every byte of a row that does not.
pub open spec fn packed_byte(data: Seq<u8>, stride: u32, width: u32, k: int) -> u8 {
    let row = k / (width as int);
    let col = k % (width as int);
    if row * stride + width <= data.len() {
        data[row * stride + col]
    } else {
        16
    }
}

/// A plane of `width` by `height` packed from `data` with rows `stride` apart.
pub open spec fn packed_plane(data: Seq<u8>, stride: u32, width: u32, height: u32) -> Seq<u8> {
    Seq::new((width * height) as nat, |k: int| packed_byte(data, stride, width, k))
}

/// Packs a plane of `width` by `height` from `data`, whose rows are `stride`
/// apart: each row whose bytes all lie inside `data` is copied, any other is
/// filled with 16.
#[verifier::rlimit(40)]
pub fn pack_plane(data: &[u8], stride: u32, width: u32, height: u32) -> (r: Vec<u8>)
    requires
        width as int * height as int <= usize::MAX,
    ensures
        r@ == packed_plane(data@, stride, width, height),
{
    let mut out: Vec<u8> = Vec::new();
    let mut row: u32 = 0;
    while row < height
        invariant
            0 <= row <= height,
            width as int * height as int <= usize::MAX,
            out@.len() == row as int * width as int,
            forall|k: int| 0 <= k < out@.len() ==> #[trigger] out@[k] == packed_byte(
                data@,
                stride,
                width,
                k,
            ),
        decreases height - row,
    {
        assert(row as int * stride as int <= 0xffff_ffff * 0xffff_ffff) by (nonlinear_arith)
            requires
                row <= 0xffff_ffffu32,
                stride <= 0xffff_ffffu32,
        ;
        let start: u64 = row as u64 * stride as u64;
        let fits = start + width as u64 <= data.len() as u64;
        let mut col: u32 = 0;
        assert(row as int * width as int + width as int <= width as int * height as int)
            by (nonlinear_arith)
            requires
                row < height,
        ;
        while col < width
            invariant
                0 <= col <= width,
                row < height,
                width as int * height as int <= usize::MAX,
                row as int * width as int + width as int <= width as int * height as int,
                start == row as int * stride as int,
                start <= 0xffff_ffff * 0xffff_ffff,
                fits == (start + width <= data@.len()),
                out@.len() == row as int * width as int + col as int,
                forall|k: int| 0 <= k < out@.len() ==> #[trigger] out@[k] == packed_byte(
                    data@,
                    stride,
                    width,
                    k,
                ),
            decreases width - col,
        {
            let ghost k = row as int * width as int + col as int;
            assert(k / (width as int) == row as int && k % (width as int) == col as int)
                by (nonlinear_arith)
                requires
                    k == row as int * width as int + col as int,
                    0 <= col < width,
                    0 <= row,
            ;
            if fits {
                assert(start + col < data@.len());
                let at = (start + col as u64) as usize;
                out.push(data[at]);
            } else {
                out.push(16);
            }
            col = col + 1;
        }
        assert(row as int * width as int + width as int == (row + 1) as int * width as int)
            by (nonlinear_arith);
        row = row + 1;
    }
    assert(height as int * width as int == width as int * height as int) by (nonlinear_arith);
    assert(out@ =~= packed_plane(data@, stride, width, height));
    out
}

/// The planes of an I420 frame of `width` by `height`, whose chroma planes
/// are `chroma_width` by `chroma_height`, from its plane data and strides.
pub fn pack_i420(
    data: (&[u8], &[u8], &[u8]),
    strides: (u32, u32, u32),
    width: u32,
    height: u32,
    chroma_width: u32,
    chroma_height: u32,
    full_range: bool,
) -> (r: Planes)
    requires
        width as int * height as int <= usize::MAX,
        chroma_width as int * chroma_height as int <= usize::MAX,
    ensures
        r.y@ == packed_plane(data.0@, strides.0, width, height),
        r.u@ == packed_plane(data.1@, strides.1, chroma_width, chroma_height),
        r.v@ == packed_plane(data.2@, strides.2, chroma_width, chroma_height),
        r.width == width,
        r.height == height,
        r.full_range == full_range,
{
    Planes {
        y: pack_plane(data.0, strides.0, width, height),
        u: pack_plane(data.1, strides.1, chroma_width, chroma_height),
        v: pack_plane(data.2, strides.2, chroma_width, chroma_height),
        width,
        height,
        full_range,
    }
}

} // verus!
