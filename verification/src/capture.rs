//! Capture options and geometry, and the area-average downscale of BGRx frames.

pub mod windows;
pub mod nv12;
pub mod macos;
pub mod linux;

use vstd::prelude::*;
use crate::stream::SourceId;

verus! {

pub const AUDIO_SAMPLE_RATE: u32 = 48_000;

pub const AUDIO_CHANNELS: u32 = 2;

#[derive(Clone, Debug)]
pub struct CaptureOptions {
    pub source: SourceId,
    pub fps: u16,
    pub height: Option<u16>,
    pub cursor: bool,
}

/// A message to the PipeWire capture thread.
#[derive(Clone, Copy, PartialEq, Eq, Structural, Debug)]
pub enum Control {
    Stop,
}

#[derive(Clone, Copy, PartialEq, Eq, Structural, Debug)]
pub struct CaptureGeometry {
    pub width: u32,
    pub height: u32,
    pub fps: u16,
}

/// The sample rate and channel count of captured screen audio.
pub fn audio_format() -> (r: (u32, u32))
    ensures
        r == (AUDIO_SAMPLE_RATE, AUDIO_CHANNELS),
{
    (AUDIO_SAMPLE_RATE, AUDIO_CHANNELS)
}

pub open spec fn ceil_div(a: int, d: int) -> int {
    if a % d == 0 {
        a / d
    } else {
        a / d + 1
    }
}

/// First source row (or column) of destination row (or column) `i`.
pub open spec fn lo_edge(i: int, src: int, dst: int) -> int {
    i * src / dst
}

/// One past the last source row (or column) of destination row (or column)
/// `i`: the rounded-up scaled end, cut at the source size, but at least one
/// past the first.
pub open spec fn hi_edge(i: int, src: int, dst: int) -> int {
    let c = ceil_div((i + 1) * src, dst);
    let m = if c < src {
        c
    } else {
        src
    };
    if m < lo_edge(i, src, dst) + 1 {
        lo_edge(i, src, dst) + 1
    } else {
        m
    }
}

/// Whether source pixel (`sx`, `sy`) lies inside the buffer.
pub open spec fn px_in(src: Seq<u8>, stride: int, sx: int, sy: int) -> bool {
    sy * stride + sx * 4 + 2 < src.len()
}

/// Channel `c` of source pixel (`sx`, `sy`), or 0 outside the buffer.
pub open spec fn px_val(src: Seq<u8>, stride: int, sx: int, sy: int, c: int) -> int {
    if px_in(src, stride, sx, sy) {
        src[sy * stride + sx * 4 + c] as int
    } else {
        0
    }
}

/// Sum of channel `c` over columns `x0..x1` of row `sy`.
pub open spec fn row_sum(src: Seq<u8>, stride: int, sy: int, x0: int, x1: int, c: int) -> int
    decreases x1 - x0,
{
    if x1 <= x0 {
        0
    } else {
        row_sum(src, stride, sy, x0, x1 - 1, c) + px_val(src, stride, x1 - 1, sy, c)
    }
}

/// Number of in-buffer pixels among columns `x0..x1` of row `sy`.
pub open spec fn row_count(src: Seq<u8>, stride: int, sy: int, x0: int, x1: int) -> int
    decreases x1 - x0,
{
    if x1 <= x0 {
        0
    } else {
        row_count(src, stride, sy, x0, x1 - 1) + if px_in(src, stride, x1 - 1, sy) {
            1int
        } else {
            0int
        }
    }
}

/// Sum of channel `c` over rows `y0..y1`, columns `x0..x1`.
pub open spec fn block_sum(src: Seq<u8>, stride: int, y0: int, y1: int, x0: int, x1: int, c: int) -> int
    decreases y1 - y0,
{
    if y1 <= y0 {
        0
    } else {
        block_sum(src, stride, y0, y1 - 1, x0, x1, c) + row_sum(src, stride, y1 - 1, x0, x1, c)
    }
}

/// Number of in-buffer pixels over rows `y0..y1`, columns `x0..x1`.
pub open spec fn block_count(src: Seq<u8>, stride: int, y0: int, y1: int, x0: int, x1: int) -> int
    decreases y1 - y0,
{
    if y1 <= y0 {
        0
    } else {
        block_count(src, stride, y0, y1 - 1, x0, x1) + row_count(src, stride, y1 - 1, x0, x1)
    }
}

/// The source block of destination pixel (`x`, `y`).
pub open spec fn block_of(x: int, y: int, src_w: int, src_h: int, dst_w: int, dst_h: int) -> (int, int, int, int) {
    (
        lo_edge(y, src_h, dst_h),
        hi_edge(y, src_h, dst_h),
        lo_edge(x, src_w, dst_w),
        hi_edge(x, src_w, dst_w),
    )
}

/// Channel `c` of destination pixel (`x`, `y`): the average of the source
/// block's in-buffer pixels (0 when none is), and 255 for alpha.
pub open spec fn cell(
    src: Seq<u8>,
    stride: int,
    src_w: int,
    src_h: int,
    dst_w: int,
    dst_h: int,
    x: int,
    y: int,
    c: int,
) -> int {
    if c == 3 {
        255
    } else {
        let (y0, y1, x0, x1) = block_of(x, y, src_w, src_h, dst_w, dst_h);
        let n = block_count(src, stride, y0, y1, x0, x1);
        block_sum(src, stride, y0, y1, x0, x1, c) / (if n == 0 {
            1
        } else {
            n
        })
    }
}

/// The byte at position `j` of the downscaled image.
pub open spec fn out_byte(
    src: Seq<u8>,
    stride: int,
    src_w: int,
    src_h: int,
    dst_w: int,
    dst_h: int,
    j: int,
) -> int {
    cell(src, stride, src_w, src_h, dst_w, dst_h, (j / 4) % dst_w, (j / 4) / dst_w, j % 4)
}

/// No sum or count of any destination block overflows 32 bits.
pub open spec fn sums_fit(src: Seq<u8>, stride: int, src_w: int, src_h: int, dst_w: int, dst_h: int) -> bool {
    forall|x: int, y: int|
        0 <= x < dst_w && 0 <= y < dst_h ==> {
            let (y0, y1, x0, x1) = #[trigger] block_of(x, y, src_w, src_h, dst_w, dst_h);
            &&& block_count(src, stride, y0, y1, x0, x1) <= u32::MAX
            &&& forall|c: int| 0 <= c < 3 ==> #[trigger] block_sum(src, stride, y0, y1, x0, x1, c) <= u32::MAX
        }
}

proof fn lemma_row_bounds(src: Seq<u8>, stride: int, sy: int, x0: int, x1: int, c: int)
    requires
        0 <= c < 3,
    ensures
        0 <= row_sum(src, stride, sy, x0, x1, c) <= 255 * row_count(src, stride, sy, x0, x1),
        0 <= row_count(src, stride, sy, x0, x1),
    decreases x1 - x0,
{
    if x1 > x0 {
        lemma_row_bounds(src, stride, sy, x0, x1 - 1, c);
    }
}

proof fn lemma_block_bounds(src: Seq<u8>, stride: int, y0: int, y1: int, x0: int, x1: int, c: int)
    requires
        0 <= c < 3,
    ensures
        0 <= block_sum(src, stride, y0, y1, x0, x1, c) <= 255 * block_count(src, stride, y0, y1, x0, x1),
        0 <= block_count(src, stride, y0, y1, x0, x1),
    decreases y1 - y0,
{
    if y1 > y0 {
        lemma_block_bounds(src, stride, y0, y1 - 1, x0, x1, c);
        lemma_row_bounds(src, stride, y1 - 1, x0, x1, c);
    }
}

proof fn lemma_row_mono(src: Seq<u8>, stride: int, sy: int, x0: int, a: int, b: int, c: int)
    requires
        0 <= c < 3,
        x0 <= a <= b,
    ensures
        row_sum(src, stride, sy, x0, a, c) <= row_sum(src, stride, sy, x0, b, c),
        row_count(src, stride, sy, x0, a) <= row_count(src, stride, sy, x0, b),
    decreases b - a,
{
    if a < b {
        lemma_row_mono(src, stride, sy, x0, a, b - 1, c);
    }
}

proof fn lemma_block_mono(src: Seq<u8>, stride: int, y0: int, a: int, b: int, x0: int, x1: int, c: int)
    requires
        0 <= c < 3,
        y0 <= a <= b,
    ensures
        block_sum(src, stride, y0, a, x0, x1, c) <= block_sum(src, stride, y0, b, x0, x1, c),
        block_count(src, stride, y0, a, x0, x1) <= block_count(src, stride, y0, b, x0, x1),
    decreases b - a,
{
    if a < b {
        lemma_block_mono(src, stride, y0, a, b - 1, x0, x1, c);
        lemma_row_bounds(src, stride, b - 1, x0, x1, c);
    }
}

/// The partial sums of a block while it is walked row by row stay below the
/// block's totals.
proof fn lemma_partial_le_total(
    src: Seq<u8>,
    stride: int,
    y0: int,
    y1: int,
    x0: int,
    x1: int,
    sy: int,
    sx: int,
    c: int,
)
    requires
        0 <= c < 3,
        y0 <= sy < y1,
        x0 <= sx <= x1,
    ensures
        block_sum(src, stride, y0, sy, x0, x1, c) + row_sum(src, stride, sy, x0, sx, c) <= block_sum(
            src,
            stride,
            y0,
            y1,
            x0,
            x1,
            c,
        ),
        block_count(src, stride, y0, sy, x0, x1) + row_count(src, stride, sy, x0, sx) <= block_count(
            src,
            stride,
            y0,
            y1,
            x0,
            x1,
        ),
{
    lemma_row_mono(src, stride, sy, x0, sx, x1, c);
    lemma_block_mono(src, stride, y0, sy + 1, y1, x0, x1, c);
}

proof fn lemma_edges(i: int, s: int, d: int)
    requires
        0 <= i < d,
        s >= 0,
    ensures
        0 <= lo_edge(i, s, d),
        s > 0 ==> lo_edge(i, s, d) < s,
        s == 0 ==> lo_edge(i, s, d) == 0,
        lo_edge(i, s, d) < hi_edge(i, s, d),
        hi_edge(i, s, d) <= if s == 0 {
            1
        } else {
            s
        },
        ceil_div((i + 1) * s, d) >= 0,
{
    assert(0 <= i * s / d) by (nonlinear_arith)
        requires
            0 <= i < d,
            s >= 0,
    ;
    if s > 0 {
        assert(i * s / d < s) by (nonlinear_arith)
            requires
                0 <= i < d,
                s > 0,
        ;
    } else {
        assert(i * s == 0) by (nonlinear_arith)
            requires
                s == 0,
        ;
    }
    assert((i + 1) * s >= 0) by (nonlinear_arith)
        requires
            0 <= i,
            s >= 0,
    ;
}

proof fn lemma_linear_index(x: int, y: int, w: int, c: int)
    requires
        0 <= x < w,
        0 <= y,
        0 <= c < 4,
    ensures
        ((y * w + x) * 4 + c) / 4 == y * w + x,
        ((y * w + x) * 4 + c) % 4 == c,
        (y * w + x) % w == x,
        (y * w + x) / w == y,
{
    assert(((y * w + x) * 4 + c) / 4 == y * w + x) by (nonlinear_arith)
        requires
            0 <= c < 4,
            0 <= x,
            0 <= y,
            w > 0,
    ;
    assert(((y * w + x) * 4 + c) % 4 == c) by (nonlinear_arith)
        requires
            0 <= c < 4,
            0 <= x,
            0 <= y,
            w > 0,
    ;
    assert((y * w + x) % w == x) by (nonlinear_arith)
        requires
            0 <= x < w,
            0 <= y,
    ;
    assert((y * w + x) / w == y) by (nonlinear_arith)
        requires
            0 <= x < w,
            0 <= y,
    ;
}

/// Area-average downscale of a BGRx image with `src_stride` bytes per row:
/// each destination pixel is the average of its source block, alpha 255.
/// Source pixels that lie past the end of the buffer are skipped.
pub fn downscale_bgrx(
    src: &[u8],
    src_w: usize,
    src_h: usize,
    src_stride: usize,
    dst_w: usize,
    dst_h: usize,
) -> (r: Vec<u8>)
    requires
        dst_w * dst_h * 4 <= usize::MAX,
        (dst_h + 1) * src_h <= usize::MAX,
        (dst_w + 1) * src_w <= usize::MAX,
        (src_h + 1) * src_stride + (src_w + 1) * 4 + 3 <= usize::MAX,
        sums_fit(src@, src_stride as int, src_w as int, src_h as int, dst_w as int, dst_h as int),
    ensures
        r@.len() == dst_w * dst_h * 4,
        forall|x: int, y: int, c: int|
            0 <= x < dst_w && 0 <= y < dst_h && 0 <= c < 4 ==> r@[(y * dst_w + x) * 4 + c] == cell(
                src@,
                src_stride as int,
                src_w as int,
                src_h as int,
                dst_w as int,
                dst_h as int,
                x,
                y,
                c,
            ),
{
    let ghost sv = src@;
    let ghost st = src_stride as int;
    let ghost (sw, sh, dw, dh) = (src_w as int, src_h as int, dst_w as int, dst_h as int);
    let mut out: Vec<u8> = Vec::new();
    if dst_w == 0 || dst_h == 0 {
        assert(dst_w * dst_h * 4 == 0) by (nonlinear_arith)
            requires
                dst_w == 0 || dst_h == 0,
        ;
        return out;
    }
    let mut y: usize = 0;
    while y < dst_h
        invariant
            sv == src@,
            st == src_stride,
            sw == src_w,
            sh == src_h,
            dw == dst_w,
            dh == dst_h,
            dst_w > 0,
            dst_h > 0,
            dst_w * dst_h * 4 <= usize::MAX,
            (dst_h + 1) * src_h <= usize::MAX,
            (dst_w + 1) * src_w <= usize::MAX,
            (src_h + 1) * src_stride + (src_w + 1) * 4 + 3 <= usize::MAX,
            sums_fit(sv, st, sw, sh, dw, dh),
            0 <= y <= dst_h,
            out@.len() == y * dst_w * 4,
            forall|j: int| 0 <= j < out@.len() ==> out@[j] == out_byte(sv, st, sw, sh, dw, dh, j),
        decreases dst_h - y,
    {
        proof {
            lemma_edges(y as int, sh, dh);
        }
        assert(y * src_h <= (dst_h + 1) * src_h && (y + 1) * src_h <= (dst_h + 1) * src_h)
            by (nonlinear_arith)
            requires
                y < dst_h,
        ;
        let y0 = y * src_h / dst_h;
        let ay = (y + 1) * src_h;
        let cy = if ay % dst_h == 0 {
            ay / dst_h
        } else {
            assert(ay / dst_h < ay) by (nonlinear_arith)
                requires
                    ay % dst_h != 0,
                    dst_h > 0,
            ;
            ay / dst_h + 1
        };
        let my = if cy < src_h {
            cy
        } else {
            src_h
        };
        let y1 = if my < y0 + 1 {
            y0 + 1
        } else {
            my
        };
        assert(y0 == lo_edge(y as int, sh, dh) && y1 == hi_edge(y as int, sh, dh));
        let mut x: usize = 0;
        while x < dst_w
            invariant
                sv == src@,
                st == src_stride,
                sw == src_w,
                sh == src_h,
                dw == dst_w,
                dh == dst_h,
                dst_w > 0,
                dst_h > 0,
                dst_w * dst_h * 4 <= usize::MAX,
                (dst_w + 1) * src_w <= usize::MAX,
                (src_h + 1) * src_stride + (src_w + 1) * 4 + 3 <= usize::MAX,
                sums_fit(sv, st, sw, sh, dw, dh),
                0 <= y < dst_h,
                0 <= x <= dst_w,
                y0 == lo_edge(y as int, sh, dh),
                y1 == hi_edge(y as int, sh, dh),
                y0 < y1,
                y1 <= if src_h == 0 {
                    1
                } else {
                    src_h
                },
                out@.len() == (y * dst_w + x) * 4,
                forall|j: int| 0 <= j < out@.len() ==> out@[j] == out_byte(sv, st, sw, sh, dw, dh, j),
            decreases dst_w - x,
        {
            proof {
                lemma_edges(x as int, sw, dw);
            }
            assert(x * src_w <= (dst_w + 1) * src_w && (x + 1) * src_w <= (dst_w + 1) * src_w)
                by (nonlinear_arith)
                requires
                    x < dst_w,
            ;
            let x0 = x * src_w / dst_w;
            let ax = (x + 1) * src_w;
            let cx = if ax % dst_w == 0 {
                ax / dst_w
            } else {
                assert(ax / dst_w < ax) by (nonlinear_arith)
                    requires
                        ax % dst_w != 0,
                        dst_w > 0,
                ;
                ax / dst_w + 1
            };
            let mx = if cx < src_w {
                cx
            } else {
                src_w
            };
            let x1 = if mx < x0 + 1 {
                x0 + 1
            } else {
                mx
            };
            assert(x0 == lo_edge(x as int, sw, dw) && x1 == hi_edge(x as int, sw, dw));
            let ghost blk = block_of(x as int, y as int, sw, sh, dw, dh);
            assert(blk == (y0 as int, y1 as int, x0 as int, x1 as int));
            assert(block_count(sv, st, y0 as int, y1 as int, x0 as int, x1 as int) <= u32::MAX);
            assert(block_sum(sv, st, y0 as int, y1 as int, x0 as int, x1 as int, 0) <= u32::MAX);
            assert(block_sum(sv, st, y0 as int, y1 as int, x0 as int, x1 as int, 1) <= u32::MAX);
            assert(block_sum(sv, st, y0 as int, y1 as int, x0 as int, x1 as int, 2) <= u32::MAX);
            let mut b: u32 = 0;
            let mut g: u32 = 0;
            let mut rr: u32 = 0;
            let mut n: u32 = 0;
            let mut sy = y0;
            while sy < y1
                invariant
                    sv == src@,
                    st == src_stride,
                    y0 <= sy <= y1,
                    x0 < x1,
                    y1 <= if src_h == 0 {
                        1
                    } else {
                        src_h
                    },
                    x1 <= if src_w == 0 {
                        1
                    } else {
                        src_w
                    },
                    (src_h + 1) * src_stride + (src_w + 1) * 4 + 3 <= usize::MAX,
                    block_count(sv, st, y0 as int, y1 as int, x0 as int, x1 as int) <= u32::MAX,
                    block_sum(sv, st, y0 as int, y1 as int, x0 as int, x1 as int, 0) <= u32::MAX,
                    block_sum(sv, st, y0 as int, y1 as int, x0 as int, x1 as int, 1) <= u32::MAX,
                    block_sum(sv, st, y0 as int, y1 as int, x0 as int, x1 as int, 2) <= u32::MAX,
                    b == block_sum(sv, st, y0 as int, sy as int, x0 as int, x1 as int, 0),
                    g == block_sum(sv, st, y0 as int, sy as int, x0 as int, x1 as int, 1),
                    rr == block_sum(sv, st, y0 as int, sy as int, x0 as int, x1 as int, 2),
                    n == block_count(sv, st, y0 as int, sy as int, x0 as int, x1 as int),
                decreases y1 - sy,
            {
                assert(sy * src_stride <= (src_h + 1) * src_stride) by (nonlinear_arith)
                    requires
                        sy < y1,
                        y1 <= src_h + 1,
                ;
                let row = sy * src_stride;
                let mut sx = x0;
                while sx < x1
                    invariant
                        sv == src@,
                        st == src_stride,
                        y0 <= sy < y1,
                        x0 <= sx <= x1,
                        x1 <= if src_w == 0 {
                            1
                        } else {
                            src_w
                        },
                        row == sy * src_stride,
                        row <= (src_h + 1) * src_stride,
                        (src_h + 1) * src_stride + (src_w + 1) * 4 + 3 <= usize::MAX,
                        block_count(sv, st, y0 as int, y1 as int, x0 as int, x1 as int) <= u32::MAX,
                        block_sum(sv, st, y0 as int, y1 as int, x0 as int, x1 as int, 0) <= u32::MAX,
                        block_sum(sv, st, y0 as int, y1 as int, x0 as int, x1 as int, 1) <= u32::MAX,
                        block_sum(sv, st, y0 as int, y1 as int, x0 as int, x1 as int, 2) <= u32::MAX,
                        b == block_sum(sv, st, y0 as int, sy as int, x0 as int, x1 as int, 0) + row_sum(
                            sv,
                            st,
                            sy as int,
                            x0 as int,
                            sx as int,
                            0,
                        ),
                        g == block_sum(sv, st, y0 as int, sy as int, x0 as int, x1 as int, 1) + row_sum(
                            sv,
                            st,
                            sy as int,
                            x0 as int,
                            sx as int,
                            1,
                        ),
                        rr == block_sum(sv, st, y0 as int, sy as int, x0 as int, x1 as int, 2)
                            + row_sum(sv, st, sy as int, x0 as int, sx as int, 2),
                        n == block_count(sv, st, y0 as int, sy as int, x0 as int, x1 as int) + row_count(
                            sv,
                            st,
                            sy as int,
                            x0 as int,
                            sx as int,
                        ),
                    decreases x1 - sx,
                {
                    let i = row + sx * 4;
                    if i + 2 < src.len() {
                        proof {
                            lemma_partial_le_total(sv, st, y0 as int, y1 as int, x0 as int, x1 as int, sy as int, sx as int + 1, 0);
                            lemma_partial_le_total(sv, st, y0 as int, y1 as int, x0 as int, x1 as int, sy as int, sx as int + 1, 1);
                            lemma_partial_le_total(sv, st, y0 as int, y1 as int, x0 as int, x1 as int, sy as int, sx as int + 1, 2);
                        }
                        b = b + src[i] as u32;
                        g = g + src[i + 1] as u32;
                        rr = rr + src[i + 2] as u32;
                        n = n + 1;
                    }
                    sx = sx + 1;
                }
                sy = sy + 1;
            }
            let nn = if n == 0 {
                1
            } else {
                n
            };
            proof {
                lemma_block_bounds(sv, st, y0 as int, y1 as int, x0 as int, x1 as int, 0);
                lemma_block_bounds(sv, st, y0 as int, y1 as int, x0 as int, x1 as int, 1);
                lemma_block_bounds(sv, st, y0 as int, y1 as int, x0 as int, x1 as int, 2);
            }
            assert(b / nn <= 255 && g / nn <= 255 && rr / nn <= 255) by (nonlinear_arith)
                requires
                    b <= 255 * n,
                    g <= 255 * n,
                    rr <= 255 * n,
                    nn == if n == 0 {
                        1
                    } else {
                        n
                    },
            ;
            let ghost before = out@;
            assert((y * dst_w + x) * 4 + 4 <= dst_w * dst_h * 4) by (nonlinear_arith)
                requires
                    x < dst_w,
                    y < dst_h,
            ;
            out.push((b / nn) as u8);
            out.push((g / nn) as u8);
            out.push((rr / nn) as u8);
            out.push(255u8);
            proof {
                assert forall|j: int| 0 <= j < out@.len() implies out@[j] == out_byte(sv, st, sw, sh, dw, dh, j) by {
                    if j >= before.len() {
                        let c = j - before.len();
                        lemma_linear_index(x as int, y as int, dw, c);
                        assert(j == (y * dst_w + x) * 4 + c);
                    }
                }
            }
            x = x + 1;
        }
        assert((y * dst_w + dst_w) * 4 == (y + 1) * dst_w * 4) by (nonlinear_arith);
        y = y + 1;
    }
    assert(dst_h * dst_w * 4 == dst_w * dst_h * 4) by (nonlinear_arith);
    proof {
        assert forall|x: int, y: int, c: int|
            0 <= x < dst_w && 0 <= y < dst_h && 0 <= c < 4 implies out@[(y * dst_w + x) * 4 + c] == cell(
            src@,
            src_stride as int,
            src_w as int,
            src_h as int,
            dst_w as int,
            dst_h as int,
            x,
            y,
            c,
        ) by {
            lemma_linear_index(x, y, dw, c);
            assert((y * dst_w + x) * 4 + c < dst_h * dst_w * 4) by (nonlinear_arith)
                requires
                    0 <= x < dst_w,
                    0 <= y < dst_h,
                    0 <= c < 4,
            ;
        }
    }
    out
}

} // verus!
