//! Reading back a written timestamp gives the time that was written: exactly
//! for SRT and WebVTT, to the centisecond for ASS.

use vstd::prelude::*;
use crate::text::{occurs_at, dec_digits, digit_char, zero_pad};
use crate::text::split::{
    first_occ, lemma_first_occ, split_seq, join_seq, replace_seq, trim, trim_start, trim_end, is_ws,
};
use crate::text::scan::{
    digits_value, all_digits, is_digit, unsigned_digits, parse_u64_spec, split_once, rsplit_once,
    last_occ,
};
use crate::subtitle_merge::timestamps::{
    parse_ts_spec, fmt_ts_spec, parse_ass_ts_spec, fmt_ass_ts_spec, pad2, hms_value, field_value,
    millis_of, ts_split, fit_u64, at_most,
};
use crate::subtitle_merge::cues::vtt_ts;

verus! {

/// The decimal digits of `n` are digits, at least one, and read back as `n`.
pub proof fn lemma_dec_digits(n: nat)
    ensures
        all_digits(dec_digits(n)),
        dec_digits(n).len() >= 1,
        digits_value(dec_digits(n)) == n,
        n < 10 ==> dec_digits(n).len() == 1,
        n < 100 ==> dec_digits(n).len() <= 2,
        n < 1000 ==> dec_digits(n).len() <= 3,
    decreases n,
{
    if n < 10 {
        let d = dec_digits(n);
        assert(d.drop_last() =~= Seq::<char>::empty());
        assert(digit_char(n as int) as int == n + 48);
        assert(d.last() == digit_char(n as int));
        assert(digits_value(d.drop_last()) == 0);
        assert('0' as int == 48);
        assert(digits_value(d) == digits_value(d.drop_last()) * 10 + (d.last() as int - '0' as int));
    } else {
        lemma_dec_digits(n / 10);
        let d = dec_digits(n / 10);
        let c = digit_char((n % 10) as int);
        assert(c as int == n % 10 + 48);
        assert(dec_digits(n).drop_last() =~= d);
        assert(dec_digits(n).last() == c);
        assert(digits_value(dec_digits(n)) == digits_value(d) * 10 + (c as int - '0' as int));
        assert((n / 10) * 10 + n % 10 == n) by (nonlinear_arith);
        if n < 100 {
            assert(n / 10 < 10) by (nonlinear_arith)
                requires
                    n < 100,
            ;
        }
        if n < 1000 {
            assert(n / 10 < 100) by (nonlinear_arith)
                requires
                    n < 1000,
            ;
        }
        assert forall|i: int| 0 <= i < dec_digits(n).len() implies is_digit(
            #[trigger] dec_digits(n)[i],
        ) by {
            if i < d.len() {
                assert(dec_digits(n)[i] == d[i]);
            }
        }
    }
}

/// A run of `'0'` reads as 0.
proof fn lemma_zeros_value(k: nat)
    ensures
        digits_value(Seq::new(k, |i: int| '0')) == 0,
        all_digits(Seq::new(k, |i: int| '0')),
    decreases k,
{
    if k > 0 {
        lemma_zeros_value((k - 1) as nat);
        assert(Seq::new(k, |i: int| '0').drop_last() =~= Seq::new((k - 1) as nat, |i: int| '0'));
    }
}

/// Reading `a` followed by `b`.
proof fn lemma_value_append(a: Seq<char>, b: Seq<char>)
    ensures
        digits_value(a + b) == digits_value(a) * crate::text::scan::pow10(b.len()) + digits_value(b),
    decreases b.len(),
{
    if b.len() == 0 {
        assert(a + b =~= a);
        assert(crate::text::scan::pow10(0) == 1);
        assert(digits_value(b) == 0);
    } else {
        lemma_value_append(a, b.drop_last());
        assert((a + b).drop_last() =~= a + b.drop_last());
        assert((a + b).last() == b.last());
        let p = crate::text::scan::pow10((b.len() - 1) as nat);
        assert(crate::text::scan::pow10(b.len()) == 10 * p);
        let va = digits_value(a);
        let vb = digits_value(b.drop_last());
        let dig = b.last() as int - '0' as int;
        assert(digits_value(a + b) == digits_value(a + b.drop_last()) * 10 + dig);
        assert(digits_value(b) == vb * 10 + dig);
        assert((va * p + vb) * 10 == va * (10 * p) + vb * 10) by (nonlinear_arith);
    }
}

/// Left-padding with zeros keeps what the digits read as.
pub proof fn lemma_zero_pad(s: Seq<char>, w: nat)
    requires
        all_digits(s),
    ensures
        all_digits(zero_pad(s, w)),
        digits_value(zero_pad(s, w)) == digits_value(s),
        zero_pad(s, w).len() == if s.len() >= w {
            s.len()
        } else {
            w
        },
        s.len() >= 1 ==> zero_pad(s, w).len() >= 1,
{
    if s.len() < w {
        let z = Seq::new((w - s.len()) as nat, |i: int| '0');
        lemma_zeros_value((w - s.len()) as nat);
        lemma_value_append(z, s);
        assert forall|i: int| 0 <= i < (z + s).len() implies is_digit(#[trigger] (z + s)[i]) by {
            if i < z.len() {
                assert((z + s)[i] == z[i]);
            } else {
                assert((z + s)[i] == s[i - z.len()]);
            }
        }
    }
}

/// A non-empty run of digits reads as its value when that fits in 64 bits.
pub proof fn lemma_parse_digits(d: Seq<char>)
    requires
        all_digits(d),
        d.len() >= 1,
        digits_value(d) <= u64::MAX,
    ensures
        parse_u64_spec(d) == Some(digits_value(d) as u64),
{
    assert(is_digit(d[0]));
    assert(unsigned_digits(d) == d);
}

/// Digits are not whitespace.
pub proof fn lemma_digit_not_ws(c: char)
    requires
        is_digit(c),
    ensures
        !is_ws(c),
{
}

/// A sequence that begins and ends with something other than whitespace is
/// its own trim.
pub proof fn lemma_trim_noop(s: Seq<char>)
    requires
        s.len() >= 1,
        !is_ws(s[0]),
        !is_ws(s.last()),
    ensures
        trim(s) == s,
{
    assert(trim_start(s) == s);
    assert(trim_end(s) == s);
}

/// A zero-padded number: digits, at least one, reading as the number.
pub open spec fn padded_ok(s: Seq<char>, v: int) -> bool {
    all_digits(s) && s.len() >= 1 && digits_value(s) == v
}

pub proof fn lemma_pad(n: nat, w: nat)
    ensures
        padded_ok(zero_pad(dec_digits(n), w), n as int),
        n < 100 && w == 2 ==> zero_pad(dec_digits(n), w).len() == 2,
        n < 1000 && w == 3 ==> zero_pad(dec_digits(n), w).len() == 3,
{
    lemma_dec_digits(n);
    lemma_zero_pad(dec_digits(n), w);
}

/// A field of digits reads back as its value.
pub proof fn lemma_field(s: Seq<char>, v: int)
    requires
        padded_ok(s, v),
        v <= u64::MAX,
    ensures
        field_value(s) == Some(v as u64),
{
    assert(is_digit(s[0]));
    assert(is_digit(s[s.len() - 1]));
    crate::text::scan::lemma_digits_bound(s);
    lemma_trim_noop(s);
    lemma_parse_digits(s);
}

/// `c` does not occur in `x`.
pub open spec fn free_of(x: Seq<char>, c: char) -> bool {
    forall|i: int| 0 <= i < x.len() ==> #[trigger] x[i] != c
}

pub proof fn lemma_digits_free(x: Seq<char>, c: char)
    requires
        all_digits(x),
        !is_digit(c),
    ensures
        free_of(x, c),
{
    assert forall|i: int| 0 <= i < x.len() implies #[trigger] x[i] != c by {
        assert(is_digit(x[i]));
    }
}

/// The first `c` in `x + [c] + y` is the one after `x`, when `x` has none.
pub proof fn lemma_first_single(x: Seq<char>, c: char, y: Seq<char>)
    requires
        free_of(x, c),
    ensures
        first_occ(x + seq![c] + y, seq![c]) == x.len(),
{
    let t = x + seq![c] + y;
    lemma_first_occ(t, seq![c]);
    assert(t.subrange(x.len() as int, (x.len() + 1) as int) =~= seq![c]);
    assert(occurs_at(t, seq![c], x.len() as int));
    let r = first_occ(t, seq![c]);
    if r < x.len() {
        assert(t.subrange(r, r + 1)[0] == t[r]);
        assert(t[r] == x[r]);
    }
}

/// Where `x` has no `c`, it does not occur in `x` at all.
pub proof fn lemma_first_none(x: Seq<char>, c: char)
    requires
        free_of(x, c),
    ensures
        first_occ(x, seq![c]) == -1,
{
    lemma_first_occ(x, seq![c]);
    let r = first_occ(x, seq![c]);
    if r >= 0 {
        assert(x.subrange(r, r + 1)[0] == x[r]);
    }
}

pub proof fn lemma_split_single(x: Seq<char>, c: char, y: Seq<char>)
    requires
        free_of(x, c),
    ensures
        split_seq(x + seq![c] + y, seq![c]) == seq![x] + split_seq(y, seq![c]),
{
    let t = x + seq![c] + y;
    lemma_first_single(x, c, y);
    assert(t.take(x.len() as int) =~= x);
    assert(t.skip((x.len() + 1) as int) =~= y);
}

pub proof fn lemma_split_none(x: Seq<char>, c: char)
    ensures
        free_of(x, c) ==> split_seq(x, seq![c]) == seq![x],
{
    if free_of(x, c) {
        lemma_first_none(x, c);
    }
}

pub proof fn lemma_split_once_single(x: Seq<char>, c: char, y: Seq<char>)
    requires
        free_of(x, c),
    ensures
        split_once(x + seq![c] + y, seq![c]) == Some((x, y)),
{
    let t = x + seq![c] + y;
    lemma_first_single(x, c, y);
    assert(t.take(x.len() as int) =~= x);
    assert(t.skip((x.len() + 1) as int) =~= y);
}

pub proof fn lemma_last_single(x: Seq<char>, c: char, y: Seq<char>)
    requires
        free_of(y, c),
    ensures
        last_occ(x + seq![c] + y, c) == x.len(),
        rsplit_once(x + seq![c] + y, c) == Some((x, y)),
    decreases y.len(),
{
    let t = x + seq![c] + y;
    if y.len() == 0 {
        assert(t.last() == c);
    } else {
        assert(t.last() == y.last());
        assert(t.drop_last() =~= x + seq![c] + y.drop_last());
        lemma_last_single(x, c, y.drop_last());
    }
    assert(t.take(x.len() as int) =~= x);
    assert(t.skip((x.len() + 1) as int) =~= y);
}

/// `H:M:S` with each field a run of digits reads as its seconds.
proof fn lemma_hms(a: Seq<char>, b: Seq<char>, c: Seq<char>, h: int, m: int, s: int)
    requires
        padded_ok(a, h),
        padded_ok(b, m),
        padded_ok(c, s),
        h <= u64::MAX,
        m <= u64::MAX,
        s <= u64::MAX,
    ensures
        hms_value(a + seq![':'] + b + seq![':'] + c) == Some(h * 3600 + m * 60 + s),
{
    lemma_digits_free(a, ':');
    lemma_digits_free(b, ':');
    lemma_digits_free(c, ':');
    let rest = b + seq![':'] + c;
    assert(a + seq![':'] + b + seq![':'] + c =~= a + seq![':'] + rest);
    lemma_split_single(a, ':', rest);
    lemma_split_single(b, ':', c);
    lemma_split_none(c, ':');
    let parts = split_seq(a + seq![':'] + b + seq![':'] + c, seq![':']);
    assert(parts =~= seq![a, b, c]);
    assert(parts.len() == 3);
    assert(parts[0] == a && parts[1] == b && parts[2] == c);
    lemma_field(a, h);
    lemma_field(b, m);
    lemma_field(c, s);
    assert(field_value(parts[0]) == Some(h as u64));
    assert(field_value(parts[1]) == Some(m as u64));
    assert(field_value(parts[2]) == Some(s as u64));
    assert(h >= 0 && m >= 0 && s >= 0) by {
        crate::text::scan::lemma_digits_bound(a);
        crate::text::scan::lemma_digits_bound(b);
        crate::text::scan::lemma_digits_bound(c);
    }
}

/// Hours, minutes, seconds and milliseconds put back together.
pub proof fn lemma_time_parts(ms: u64)
    ensures
        ((ms / 3_600_000) as int * 3600 + ((ms % 3_600_000) / 60_000) as int * 60 + ((ms % 60_000)
            / 1000) as int) * 1000 + (ms % 1000) as int == ms as int,
        (ms % 3_600_000) / 60_000 < 60,
        (ms % 60_000) / 1000 < 60,
{
    let x = ms as int;
    let h = x / 3_600_000;
    let r1 = x % 3_600_000;
    let m = r1 / 60_000;
    let r2 = r1 % 60_000;
    let s = r2 / 1000;
    let r3 = r2 % 1000;
    assert(x == h * 3_600_000 + r1 && 0 <= r1 < 3_600_000) by (nonlinear_arith)
        requires
            h == x / 3_600_000,
            r1 == x % 3_600_000,
            x >= 0,
    ;
    assert(r1 == m * 60_000 + r2 && 0 <= r2 < 60_000 && m < 60) by (nonlinear_arith)
        requires
            m == r1 / 60_000,
            r2 == r1 % 60_000,
            0 <= r1 < 3_600_000,
    ;
    assert(r2 == s * 1000 + r3 && 0 <= r3 < 1000 && s < 60) by (nonlinear_arith)
        requires
            s == r2 / 1000,
            r3 == r2 % 1000,
            0 <= r2 < 60_000,
    ;
    assert(x % 60_000 == r2) by (nonlinear_arith)
        requires
            x == h * 3_600_000 + m * 60_000 + r2,
            0 <= r2 < 60_000,
            h >= 0,
            m >= 0,
    ;
    assert(x % 1000 == r3) by (nonlinear_arith)
        requires
            x == h * 3_600_000 + m * 60_000 + s * 1000 + r3,
            0 <= r3 < 1000,
            h >= 0,
            m >= 0,
            s >= 0,
    ;
}

/// An SRT timestamp that was written reads back as the same time.
#[verifier::rlimit(30)]
pub proof fn lemma_srt_timestamp_round_trip(ms: u64)
    ensures
        parse_ts_spec(fmt_ts_spec(ms)) == Some(ms),
{
    let h = ms / 3_600_000;
    let m = (ms % 3_600_000) / 60_000;
    let s = (ms % 60_000) / 1000;
    let milli = ms % 1000;
    lemma_time_parts(ms);
    let a = pad2(h);
    let b = pad2(m);
    let c = pad2(s);
    let d = zero_pad(dec_digits(milli as nat), 3);
    lemma_pad(h as nat, 2);
    lemma_pad(m as nat, 2);
    lemma_pad(s as nat, 2);
    lemma_pad(milli as nat, 3);
    let hms = a + seq![':'] + b + seq![':'] + c;
    let t = fmt_ts_spec(ms);
    assert(t =~= hms + seq![','] + d);
    assert(is_digit(a[0]));
    assert(is_digit(d[d.len() - 1]));
    assert(t[0] == a[0]);
    assert(t.last() == d[d.len() - 1]);
    lemma_trim_noop(t);
    assert(free_of(hms, ',')) by {
        lemma_digits_free(a, ',');
        lemma_digits_free(b, ',');
        lemma_digits_free(c, ',');
        assert forall|i: int| 0 <= i < hms.len() implies #[trigger] hms[i] != ',' by {
            if i < a.len() {
                assert(hms[i] == a[i]);
            } else if i == a.len() {
            } else if i < a.len() + 1 + b.len() {
                assert(hms[i] == b[i - a.len() - 1]);
            } else if i == a.len() + 1 + b.len() {
            } else {
                assert(hms[i] == c[i - a.len() - 2 - b.len()]);
            }
        }
    }
    lemma_split_once_single(hms, ',', d);
    assert(ts_split(trim(t)) == (hms, d));
    assert(d.take(3) =~= d);
    lemma_parse_digits(d);
    assert(millis_of(d) == milli);
    lemma_hms(a, b, c, h as int, m as int, s as int);
}

/// A WebVTT timestamp that was written reads back as the same time.
#[verifier::rlimit(30)]
pub proof fn lemma_vtt_timestamp_round_trip(ms: u64)
    ensures
        parse_ts_spec(vtt_ts(ms)) == Some(ms),
{
    let h = ms / 3_600_000;
    let m = (ms % 3_600_000) / 60_000;
    let s = (ms % 60_000) / 1000;
    let milli = ms % 1000;
    lemma_time_parts(ms);
    let a = pad2(h);
    let b = pad2(m);
    let c = pad2(s);
    let d = zero_pad(dec_digits(milli as nat), 3);
    lemma_pad(h as nat, 2);
    lemma_pad(m as nat, 2);
    lemma_pad(s as nat, 2);
    lemma_pad(milli as nat, 3);
    let hms = a + seq![':'] + b + seq![':'] + c;
    let f = fmt_ts_spec(ms);
    assert(f =~= hms + seq![','] + d);
    lemma_digits_free(a, ',');
    lemma_digits_free(b, ',');
    lemma_digits_free(c, ',');
    lemma_digits_free(d, ',');
    assert(free_of(hms, ',')) by {
        assert forall|i: int| 0 <= i < hms.len() implies #[trigger] hms[i] != ',' by {
            if i < a.len() {
                assert(hms[i] == a[i]);
            } else if i == a.len() {
            } else if i < a.len() + 1 + b.len() {
                assert(hms[i] == b[i - a.len() - 1]);
            } else if i == a.len() + 1 + b.len() {
            } else {
                assert(hms[i] == c[i - a.len() - 2 - b.len()]);
            }
        }
    }
    lemma_split_single(hms, ',', d);
    lemma_split_none(d, ',');
    assert(split_seq(f, seq![',']) =~= seq![hms, d]);
    let t = vtt_ts(ms);
    assert(join_seq(seq![hms, d], seq!['.']) == join_seq(seq![hms], seq!['.']) + seq!['.'] + d) by {
        assert(seq![hms, d].drop_last() =~= seq![hms]);
    }
    assert(t =~= hms + seq!['.'] + d);
    assert(is_digit(a[0]));
    assert(is_digit(d[d.len() - 1]));
    assert(t[0] == a[0]);
    assert(t.last() == d[d.len() - 1]);
    lemma_trim_noop(t);
    assert(free_of(t, ',')) by {
        assert forall|i: int| 0 <= i < t.len() implies #[trigger] t[i] != ',' by {
            if i < hms.len() {
                assert(t[i] == hms[i]);
            } else if i > hms.len() {
                assert(t[i] == d[i - hms.len() - 1]);
            }
        }
    }
    lemma_first_none(t, ',');
    lemma_digits_free(d, '.');
    lemma_last_single(hms, '.', d);
    assert(ts_split(trim(t)) == (hms, d));
    assert(d.take(3) =~= d);
    lemma_parse_digits(d);
    assert(millis_of(d) == milli);
    lemma_hms(a, b, c, h as int, m as int, s as int);
}

/// An ASS timestamp that was written reads back as the same time, cut to the
/// centisecond.
#[verifier::rlimit(30)]
pub proof fn lemma_ass_timestamp_round_trip(ms: u64)
    ensures
        parse_ass_ts_spec(fmt_ass_ts_spec(ms)) == Some((ms - ms % 10) as u64),
{
    let h = ms / 3_600_000;
    let m = (ms % 3_600_000) / 60_000;
    let s = (ms % 60_000) / 1000;
    let cs = (ms % 1000) / 10;
    lemma_time_parts(ms);
    let e = dec_digits(h as nat);
    let b = pad2(m);
    let c = pad2(s);
    let f = pad2(cs);
    lemma_dec_digits(h as nat);
    lemma_pad(m as nat, 2);
    lemma_pad(s as nat, 2);
    lemma_pad(cs as nat, 2);
    let hms = e + seq![':'] + b + seq![':'] + c;
    let t = fmt_ass_ts_spec(ms);
    assert(t =~= hms + seq!['.'] + f);
    assert(is_digit(e[0]));
    assert(is_digit(f[f.len() - 1]));
    assert(t[0] == e[0]);
    assert(t.last() == f[f.len() - 1]);
    lemma_trim_noop(t);
    lemma_digits_free(f, '.');
    lemma_last_single(hms, '.', f);
    assert(f.take(at_most(f.len() as int, 2)) =~= f);
    lemma_parse_digits(f);
    lemma_hms(e, b, c, h as int, m as int, s as int);
    let x = ms as int;
    assert(cs * 10 == x % 1000 - x % 10) by (nonlinear_arith)
        requires
            cs == (x % 1000) / 10,
            x >= 0,
    {
        let r = x % 1000;
        assert(r == (r / 10) * 10 + r % 10);
        assert(x == (x / 1000) * 1000 + r);
        assert(x % 10 == r % 10);
    }
}

} // verus!
