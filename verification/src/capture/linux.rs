//! What the Linux capture backend decides for itself: which failures of the
//! screen-sharing portal mean the user cancelled, the size frames are
//! published at, and how a captured frame is packed.

use vstd::prelude::*;
use crate::text::{seq_contains, ascii_lower_seq, chars_of, lower_chars, find_from, occurs_at, string_of};
use crate::stream::StreamError;

verus! {

/// "screen sharing portal: " and the portal's message.
pub open spec fn portal_message(text: Seq<char>) -> Seq<char> {
    "screen sharing portal: "@ + text
}

/// The stream error for a failure of the screen-sharing portal with message
/// `text`: `Permission` where the message, lowered, speaks of a cancel (the
/// user closed the picker), a capture failure naming the portal otherwise.
/// Lowering ASCII letters finds the ASCII word exactly where
/// `str::to_lowercase` does.
pub fn portal_failure(text: &str) -> (r: StreamError)
    ensures
        seq_contains(ascii_lower_seq(text@), "cancel"@) ==> r == StreamError::Permission,
        !seq_contains(ascii_lower_seq(text@), "cancel"@) ==> (r matches StreamError::Capture(m)
            && m@ == portal_message(text@)),
{
    let cs = chars_of(text);
    let lower = lower_chars(cs.as_slice());
    let needle = chars_of("cancel");
    match find_from(lower.as_slice(), needle.as_slice(), 0) {
        Some(k) => {
            assert(occurs_at(ascii_lower_seq(text@), "cancel"@, k as int));
            StreamError::Permission
        },
        None => {
            let mut m = chars_of("screen sharing portal: ");
            let ghost head = m@;
            let mut i: usize = 0;
            while i < cs.len()
                invariant
                    0 <= i <= cs@.len(),
                    m@ == head + cs@.take(i as int),
                decreases cs@.len() - i,
            {
                m.push(cs[i]);
                assert(cs@.take(i + 1) =~= cs@.take(i as int).push(cs@[i as int]));
                i = i + 1;
            }
            assert(cs@.take(cs@.len() as int) =~= cs@);
            StreamError::Capture(string_of(m.as_slice()))
        },
    }
}

/// `x` rounded down to an even number.
pub open spec fn even_down(x: int) -> int {
    x - x % 2
}

/// The size a `w` by `h` screen is published at under the height cap `cap`:
/// a cap below the screen's height scales the width with the height, rounds
/// it to even (at least 2) and takes the cap rounded down to even; otherwise
/// the screen's size rounded down to even. `None` for an empty screen.
pub open spec fn output_size_spec(w: int, h: int, cap: Option<usize>) -> Option<(int, int)> {
    if w == 0 || h == 0 {
        None
    } else if cap is Some && cap->0 < h {
        let scaled = even_down(w * cap->0 / h + 1);
        Some((if scaled < 2 { 2 } else { scaled }, even_down(cap->0 as int)))
    } else {
        Some((even_down(w), even_down(h)))
    }
}

fn clear_low_bit(x: usize) -> (r: usize)
    ensures
        r == even_down(x as int),
{
    assert(x & !1usize == x - x % 2) by (bit_vector);
    x & !1usize
}

/// The size frames are published at, as `output_size_spec` gives it.
pub fn output_size(w: usize, h: usize, cap: Option<usize>) -> (r: Option<(usize, usize)>)
    requires
        cap is Some && cap->0 < h ==> w * cap->0 <= usize::MAX,
    ensures
        r matches Some(p) ==> output_size_spec(w as int, h as int, cap) == Some((p.0 as int, p.1 as int)),
        r is None <==> output_size_spec(w as int, h as int, cap) is None,
{
    if w == 0 || h == 0 {
        return None;
    }
    match cap {
        Some(c) if c < h => {
            assert((w * c) / (h as int) <= w * c) by (nonlinear_arith)
                requires
                    h >= 1,
                    w * c >= 0,
            ;
            assert((w * c) / (h as int) < usize::MAX) by (nonlinear_arith)
                requires
                    h >= 1,
                    c < h,
                    w * c <= usize::MAX,
            ;
            let scaled = clear_low_bit(w * c / h + 1);
            let out_w = if scaled < 2 {
                2
            } else {
                scaled
            };
            Some((out_w, clear_low_bit(c)))
        },
        _ => Some((clear_low_bit(w), clear_low_bit(h))),
    }
}

/// Byte `x` of row `y` of a frame whose `w`-pixel rows lie `stride` bytes
/// apart in `bytes`, packed tightly: taken from `bytes` where the whole row
/// lies within them, zero from the first row that runs past their end.
pub open spec fn packed_byte(bytes: Seq<u8>, w: int, stride: int, y: int, x: int) -> u8 {
    if y * stride + 4 * w <= bytes.len() {
        bytes[y * stride + x]
    } else {
        0
    }
}

proof fn lemma_row_index(yy: int, y: int, row: int, x: int)
    requires
        0 <= yy < y,
        0 <= x < row,
    ensures
        yy * row + x < y * row,
        0 <= yy * row + x,
{
    assert(yy * row + x < y * row && 0 <= yy * row + x) by (nonlinear_arith)
        requires
            0 <= yy < y,
            0 <= x < row,
    ;
}

/// The rows of a `w` by `h` frame, `stride` bytes apart in `bytes`, copied
/// into a tightly packed frame of `4 * w` bytes a row.
pub fn pack_rows(bytes: &[u8], w: usize, h: usize, stride: usize) -> (r: Vec<u8>)
    requires
        w * h * 4 <= usize::MAX,
        h * stride + 4 * w <= usize::MAX,
    ensures
        r@.len() == w * h * 4,
        forall|y: int, x: int|
            0 <= y < h && 0 <= x < 4 * w ==> r@[y * (4 * w) + x] == #[trigger] packed_byte(
                bytes@,
                w as int,
                stride as int,
                y,
                x,
            ),
{
    let row = 4 * w;
    let mut out: Vec<u8> = Vec::new();
    let mut y: usize = 0;
    while y < h
        invariant
            row == 4 * w,
            y <= h,
            h * stride + 4 * w <= usize::MAX,
            out@.len() == y * row,
            forall|yy: int, x: int|
                0 <= yy < y && 0 <= x < row ==> out@[yy * row + x] == #[trigger] packed_byte(
                    bytes@,
                    w as int,
                    stride as int,
                    yy,
                    x,
                ),
        decreases h - y,
    {
        assert(y * stride + row <= h * stride + 4 * w) by (nonlinear_arith)
            requires
                y < h,
                row == 4 * w,
        ;
        let src = y * stride;
        let fits = src + row <= bytes.len();
        let ghost base = y * row;
        let mut x: usize = 0;
        while x < row
            invariant
                row == 4 * w,
                y < h,
                base == y * row,
                src == y * stride,
                src + row <= usize::MAX,
                fits == (src + row <= bytes@.len()),
                x <= row,
                out@.len() == base + x,
                forall|yy: int, xx: int|
                    0 <= yy < y && 0 <= xx < row ==> out@[yy * row + xx] == #[trigger] packed_byte(
                        bytes@,
                        w as int,
                        stride as int,
                        yy,
                        xx,
                    ),
                forall|xx: int| 0 <= xx < x ==> out@[base + xx] == #[trigger] packed_byte(
                    bytes@,
                    w as int,
                    stride as int,
                    y as int,
                    xx,
                ),
            decreases row - x,
        {
            let ghost before = out@;
            if fits {
                out.push(bytes[src + x]);
            } else {
                out.push(0);
            }
            assert forall|yy: int, xx: int| 0 <= yy < y && 0 <= xx < row implies out@[yy * row + xx]
                == #[trigger] packed_byte(bytes@, w as int, stride as int, yy, xx) by {
                lemma_row_index(yy, y as int, row as int, xx);
                assert(out@[yy * row + xx] == before[yy * row + xx]);
            }
            x = x + 1;
        }
        assert forall|yy: int, xx: int| 0 <= yy < y + 1 && 0 <= xx < row implies out@[yy * row + xx]
            == #[trigger] packed_byte(bytes@, w as int, stride as int, yy, xx) by {
            if yy == y {
                assert(yy * row + xx == base + xx);
            }
        }
        assert((y + 1) * row == y * row + row) by (nonlinear_arith);
        y = y + 1;
    }
    assert(h * row == w * h * 4) by (nonlinear_arith)
        requires
            row == 4 * w,
    ;
    out
}

/// `frame` with the first and third byte of each whole four-byte pixel
/// swapped (RGBx to BGRx); bytes after the last whole pixel stay.
pub open spec fn swapped_rb(frame: Seq<u8>) -> Seq<u8> {
    Seq::new(
        frame.len(),
        |i: int|
            if i < frame.len() - frame.len() % 4 && i % 4 == 0 {
                frame[i + 2]
            } else if i < frame.len() - frame.len() % 4 && i % 4 == 2 {
                frame[i - 2]
            } else {
                frame[i]
            },
    )
}

/// Swaps red and blue in every whole pixel of `frame`.
pub fn swap_red_blue(frame: &mut Vec<u8>)
    ensures
        final(frame)@ == swapped_rb(old(frame)@),
{
    let ghost orig = frame@;
    let n = frame.len();
    let whole = n - n % 4;
    let mut i: usize = 0;
    while i < whole
        invariant
            n == orig.len(),
            whole == n - n % 4,
            frame@.len() == n,
            i % 4 == 0,
            i <= whole,
            forall|k: int| 0 <= k < i ==> frame@[k] == #[trigger] swapped_rb(orig)[k],
            forall|k: int| i <= k < n ==> frame@[k] == orig[k],
        decreases whole - i,
    {
        let a = frame[i];
        let b = frame[i + 2];
        frame.set(i, b);
        frame.set(i + 2, a);
        assert forall|k: int| 0 <= k < i + 4 implies frame@[k] == #[trigger] swapped_rb(orig)[k] by {
            if k >= i {
                assert(k < whole);
            }
        }
        i = i + 4;
    }
    assert(frame@ =~= swapped_rb(orig));
}

} // verus!
