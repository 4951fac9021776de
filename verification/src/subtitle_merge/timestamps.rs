//! Subtitle timestamps: `HH:MM:SS,mmm` (SRT), `HH:MM:SS.mmm` (WebVTT) and
//! `H:MM:SS.cc` (ASS), read into and written from milliseconds.

use vstd::prelude::*;
use crate::text::{dec_digits, zero_pad, decimal, decimal_padded};
use crate::text::split::{split_seq, trim, views, split_chars, trim_chars, slice_vec, extend_chars};
use crate::text::scan::{
    split_once, rsplit_once, parse_u64_spec, split_once_chars, rsplit_once_chars, parse_u64,
};

verus! {

/// The number that `s` holds once trimmed, as `str::parse::<u64>` reads it.
pub open spec fn field_value(s: Seq<char>) -> Option<u64> {
    parse_u64_spec(trim(s))
}

/// The seconds that `H:M:S` or `M:S` stands for.
pub open spec fn hms_value(hms: Seq<char>) -> Option<int> {
    let parts = split_seq(hms, seq![':']);
    if parts.len() == 3 {
        match (field_value(parts[0]), field_value(parts[1]), field_value(parts[2])) {
            (Some(h), Some(m), Some(s)) => Some(h * 3600 + m * 60 + s),
            _ => None,
        }
    } else if parts.len() == 2 {
        match (field_value(parts[0]), field_value(parts[1])) {
            (Some(m), Some(s)) => Some(m * 60 + s),
            _ => None,
        }
    } else {
        None
    }
}

/// The smaller of `n` and `k`.
pub open spec fn at_most(n: int, k: int) -> int {
    if n < k {
        n
    } else {
        k
    }
}

/// The milliseconds of a fraction: its first three characters read as a
/// number and scaled by how many there were (`"5"` is 500, `"05"` 50), or 0
/// where they do not read as one.
pub open spec fn millis_of(frac: Seq<char>) -> int {
    let k = at_most(frac.len() as int, 3);
    let scale: int = if k == 0 {
        1000
    } else if k == 1 {
        100
    } else if k == 2 {
        10
    } else {
        1
    };
    match parse_u64_spec(frac.take(k)) {
        Some(v) => v * scale,
        None => 0,
    }
}

/// The whole-seconds part and the fraction of a trimmed SRT/WebVTT timestamp:
/// split at the first `','`, else at the last `'.'`, else no fraction (`"0"`).
pub open spec fn ts_split(t: Seq<char>) -> (Seq<char>, Seq<char>) {
    match split_once(t, seq![',']) {
        Some(p) => p,
        None => match rsplit_once(t, '.') {
            Some(p) => p,
            None => (t, seq!['0']),
        },
    }
}

/// `v` as a `u64`, where it fits.
pub open spec fn fit_u64(v: int) -> Option<u64> {
    if 0 <= v <= u64::MAX {
        Some(v as u64)
    } else {
        None
    }
}

/// The milliseconds that an SRT or WebVTT timestamp stands for
/// (`HH:MM:SS,mmm`, `HH:MM:SS.mmm` or `MM:SS.mmm`); `None` where a field does
/// not read as a number, where there are not two or three fields, or where the
/// total does not fit in 64 bits.
pub open spec fn parse_ts_spec(s: Seq<char>) -> Option<u64> {
    let (hms, frac) = ts_split(trim(s));
    match hms_value(hms) {
        Some(v) => fit_u64(v * 1000 + millis_of(frac)),
        None => None,
    }
}

/// The milliseconds that an ASS timestamp (`H:MM:SS.cc`) stands for.
pub open spec fn parse_ass_ts_spec(s: Seq<char>) -> Option<u64> {
    match rsplit_once(trim(s), '.') {
        None => None,
        Some((hms, cc)) => match parse_u64_spec(cc.take(at_most(cc.len() as int, 2))) {
            None => None,
            Some(c) => match hms_value(hms) {
                None => None,
                Some(v) => fit_u64(v * 1000 + c * 10),
            },
        },
    }
}

pub open spec fn pad2(n: u64) -> Seq<char> {
    zero_pad(dec_digits(n as nat), 2)
}

/// `HH:MM:SS,mmm`, each field zero-padded (the hours to at least two digits).
pub open spec fn fmt_ts_spec(ms: u64) -> Seq<char> {
    pad2(ms / 3_600_000) + seq![':'] + pad2((ms % 3_600_000) / 60_000) + seq![':'] + pad2(
        (ms % 60_000) / 1000,
    ) + seq![','] + zero_pad(dec_digits((ms % 1000) as nat), 3)
}

/// `H:MM:SS.cc`, the hours unpadded and the rest zero-padded to two digits.
pub open spec fn fmt_ass_ts_spec(ms: u64) -> Seq<char> {
    dec_digits((ms / 3_600_000) as nat) + seq![':'] + pad2((ms % 3_600_000) / 60_000) + seq![':']
        + pad2((ms % 60_000) / 1000) + seq!['.'] + pad2((ms % 1000) / 10)
}

/// The number that `s` holds once trimmed.
fn field(s: &[char]) -> (r: Option<u64>)
    ensures
        r == field_value(s@),
{
    let t = trim_chars(s);
    parse_u64(t.as_slice())
}

/// The seconds that `H:M:S` or `M:S` stands for, where that fits in 64 bits.
fn hms_seconds(hms: &[char]) -> (r: Option<u64>)
    ensures
        match r {
            Some(v) => hms_value(hms@) == Some(v as int),
            None => hms_value(hms@) is None || hms_value(hms@).unwrap() > u64::MAX,
        },
{
    let colon = vec![':'];
    assert(colon@ =~= seq![':']);
    let parts = split_chars(hms, colon.as_slice());
    let ghost p = views(parts@);
    if parts.len() == 3 {
        let h = field(parts[0].as_slice());
        let m = field(parts[1].as_slice());
        let s = field(parts[2].as_slice());
        assert(p[0] == parts@[0]@ && p[1] == parts@[1]@ && p[2] == parts@[2]@);
        match (h, m, s) {
            (Some(h), Some(m), Some(s)) => {
                let a = h.checked_mul(3600);
                let b = m.checked_mul(60);
                match (a, b) {
                    (Some(a), Some(b)) => match a.checked_add(b) {
                        Some(ab) => ab.checked_add(s),
                        None => None,
                    },
                    _ => None,
                }
            },
            _ => None,
        }
    } else if parts.len() == 2 {
        let m = field(parts[0].as_slice());
        let s = field(parts[1].as_slice());
        assert(p[0] == parts@[0]@ && p[1] == parts@[1]@);
        match (m, s) {
            (Some(m), Some(s)) => match m.checked_mul(60) {
                Some(b) => b.checked_add(s),
                None => None,
            },
            _ => None,
        }
    } else {
        None
    }
}

/// `secs * 1000 + extra`, where it fits in 64 bits.
fn total_ms(secs: Option<u64>, extra: u64) -> (r: Option<u64>)
    ensures
        match secs {
            Some(v) => r == fit_u64(v * 1000 + extra),
            None => r is None,
        },
{
    match secs {
        None => None,
        Some(v) => match v.checked_mul(1000) {
            Some(x) => x.checked_add(extra),
            None => None,
        },
    }
}

/// The milliseconds of a fraction.
fn millis(frac: &[char]) -> (r: u64)
    ensures
        r == millis_of(frac@),
        r < 1000,
{
    let k: usize = if frac.len() < 3 {
        frac.len()
    } else {
        3
    };
    let head = slice_vec(frac, 0, k);
    assert(head@ =~= frac@.take(k as int));
    match parse_u64(head.as_slice()) {
        None => 0,
        Some(v) => {
            proof {
                crate::subtitle_merge::timestamps::lemma_short_value(head@);
            }
            if k == 0 {
                v * 1000
            } else if k == 1 {
                v * 100
            } else if k == 2 {
                v * 10
            } else {
                v
            }
        },
    }
}

/// What a number of at most `k` characters can be worth.
pub proof fn lemma_short_value(s: Seq<char>)
    requires
        s.len() <= 3,
        parse_u64_spec(s) is Some,
    ensures
        s.len() == 1 ==> parse_u64_spec(s).unwrap() < 10,
        s.len() == 2 ==> parse_u64_spec(s).unwrap() < 100,
        s.len() == 3 ==> parse_u64_spec(s).unwrap() < 1000,
        s.len() != 0,
{
    let d = crate::text::scan::unsigned_digits(s);
    crate::text::scan::lemma_digits_bound(d);
    reveal_with_fuel(crate::text::scan::pow10, 4);
    assert(d.len() <= s.len());
    if d.len() == 2 {
        assert(crate::text::scan::pow10(2) == 100);
    }
}

/// Reads an SRT or WebVTT timestamp.
#[verifier::rlimit(30)]
pub fn parse_ts(s: &[char]) -> (r: Option<u64>)
    ensures
        r == parse_ts_spec(s@),
{
    let t = trim_chars(s);
    let comma = vec![','];
    assert(comma@ =~= seq![',']);
    let (hms, frac) = match split_once_chars(t.as_slice(), comma.as_slice()) {
        Some(p) => p,
        None => match rsplit_once_chars(t.as_slice(), '.') {
            Some(p) => p,
            None => {
                let z = vec!['0'];
                assert(z@ =~= seq!['0']);
                (t, z)
            },
        },
    };
    assert((hms@, frac@) == ts_split(trim(s@)));
    let ms = millis(frac.as_slice());
    let secs = hms_seconds(hms.as_slice());
    total_ms(secs, ms)
}

/// Reads an ASS timestamp.
#[verifier::rlimit(30)]
pub fn parse_ass_ts(s: &[char]) -> (r: Option<u64>)
    ensures
        r == parse_ass_ts_spec(s@),
{
    let t = trim_chars(s);
    match rsplit_once_chars(t.as_slice(), '.') {
        None => None,
        Some((hms, cc)) => {
            let k: usize = if cc.len() < 2 {
                cc.len()
            } else {
                2
            };
            let head = slice_vec(cc.as_slice(), 0, k);
            assert(head@ =~= cc@.take(k as int));
            match parse_u64(head.as_slice()) {
                None => None,
                Some(c) => {
                    proof {
                        lemma_short_value(head@);
                    }
                    let secs = hms_seconds(hms.as_slice());
                    total_ms(secs, c * 10)
                },
            }
        },
    }
}

/// Writes a timestamp as `HH:MM:SS,mmm`.
pub fn fmt_ts(ms: u64) -> (r: Vec<char>)
    ensures
        r@ == fmt_ts_spec(ms),
{
    let mut out = decimal_padded(ms / 3_600_000, 2);
    out.push(':');
    let m = decimal_padded((ms % 3_600_000) / 60_000, 2);
    extend_chars(&mut out, m.as_slice());
    out.push(':');
    let s = decimal_padded((ms % 60_000) / 1000, 2);
    extend_chars(&mut out, s.as_slice());
    out.push(',');
    let milli = decimal_padded(ms % 1000, 3);
    extend_chars(&mut out, milli.as_slice());
    out
}

/// Writes a timestamp as `H:MM:SS.cc`.
pub fn fmt_ass_ts(ms: u64) -> (r: Vec<char>)
    ensures
        r@ == fmt_ass_ts_spec(ms),
{
    let mut out = decimal(ms / 3_600_000);
    out.push(':');
    let m = decimal_padded((ms % 3_600_000) / 60_000, 2);
    extend_chars(&mut out, m.as_slice());
    out.push(':');
    let s = decimal_padded((ms % 60_000) / 1000, 2);
    extend_chars(&mut out, s.as_slice());
    out.push('.');
    let cs = decimal_padded((ms % 1000) / 10, 2);
    extend_chars(&mut out, cs.as_slice());
    out
}

} // verus!
