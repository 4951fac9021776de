//! What the macOS capture backend decides for itself: which ScreenCaptureKit
//! failures mean the user has not granted screen recording, and the size of
//! a source thumbnail.

use vstd::prelude::*;
use crate::text::{seq_contains, ascii_lower_seq, chars_of, lower_chars, find_from, occurs_at, string_of};
use crate::stream::StreamError;

verus! {

/// Whether a ScreenCaptureKit failure is the user's refusal: the permission
/// error, the user-declined stream error, or a message that, lowered, speaks
/// of it. Lowering ASCII letters finds these ASCII words exactly where
/// `str::to_lowercase` does: no other character lowers into them.
pub open spec fn refused_spec(permission_error: bool, user_declined: bool, lower: Seq<char>) -> bool {
    permission_error || user_declined || seq_contains(lower, "declined"@) || seq_contains(
        lower,
        "permission"@,
    ) || seq_contains(lower, "-3801"@)
}

fn contains_chars(hay: &[char], needle: &str) -> (r: bool)
    ensures
        r == seq_contains(hay@, needle@),
{
    let n = chars_of(needle);
    match find_from(hay, n.as_slice(), 0) {
        Some(k) => {
            assert(occurs_at(hay@, needle@, k as int));
            true
        },
        None => false,
    }
}

/// The stream error for a ScreenCaptureKit failure with message `text`:
/// `Permission` where the user refused, the message as a capture failure
/// otherwise.
pub fn capture_failure(permission_error: bool, user_declined: bool, text: &str) -> (r: StreamError)
    ensures
        refused_spec(permission_error, user_declined, ascii_lower_seq(text@)) ==> r
            == StreamError::Permission,
        !refused_spec(permission_error, user_declined, ascii_lower_seq(text@)) ==> (r matches StreamError::Capture(m) && m@ == text@),
{
    let cs = chars_of(text);
    let lower = lower_chars(cs.as_slice());
    if permission_error || user_declined || contains_chars(lower.as_slice(), "declined")
        || contains_chars(lower.as_slice(), "permission") || contains_chars(lower.as_slice(), "-3801") {
        StreamError::Permission
    } else {
        StreamError::Capture(string_of(cs.as_slice()))
    }
}

/// The height of a 320-pixel-wide thumbnail of a `src_w` by `src_h` source,
/// kept between 2 and 320.
pub fn thumbnail_height(src_w: u32, src_h: u32) -> (r: u32)
    ensures
        r == ({
            let h = src_h as int * 320 / (if src_w == 0 {
                1
            } else {
                src_w as int
            });
            if h < 2 {
                2
            } else if h > 320 {
                320
            } else {
                h
            }
        }),
{
    let w: u64 = if src_w == 0 {
        1
    } else {
        src_w as u64
    };
    let h = (src_h as u64 * 320) / w;
    if h < 2 {
        2
    } else if h > 320 {
        320
    } else {
        h as u32
    }
}

} // verus!
