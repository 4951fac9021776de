//! Byte-level helpers: appending, big-endian integers and lowercase hex.

use vstd::prelude::*;

verus! {

/// Appends `s` to `v`.
pub fn append_bytes(v: &mut Vec<u8>, s: &[u8])
    ensures
        final(v)@ == old(v)@ + s@,
{
    let mut i: usize = 0;
    while i < s.len()
        invariant
            0 <= i <= s@.len(),
            v@ == old(v)@ + s@.take(i as int),
        decreases s@.len() - i,
    {
        v.push(s[i]);
        assert(s@.take(i + 1) == s@.take(i as int).push(s@[i as int]));
        i = i + 1;
    }
    assert(s@.take(s@.len() as int) == s@);
}

/// The eight bytes of `x`, most significant first.
pub open spec fn be_u64(x: u64) -> Seq<u8> {
    seq![
        (x / 0x100_0000_0000_0000) as u8,
        ((x / 0x1_0000_0000_0000) % 256) as u8,
        ((x / 0x100_0000_0000) % 256) as u8,
        ((x / 0x1_0000_0000) % 256) as u8,
        ((x / 0x100_0000) % 256) as u8,
        ((x / 0x1_0000) % 256) as u8,
        ((x / 0x100) % 256) as u8,
        (x % 256) as u8,
    ]
}

/// The four bytes of `x`, most significant first.
pub open spec fn be_u32(x: u32) -> Seq<u8> {
    seq![
        (x / 0x100_0000) as u8,
        ((x / 0x1_0000) % 256) as u8,
        ((x / 0x100) % 256) as u8,
        (x % 256) as u8,
    ]
}

/// The number whose big-endian bytes are `b[0..4]`.
pub open spec fn from_be4(b0: u8, b1: u8, b2: u8, b3: u8) -> int {
    b0 as int * 0x100_0000 + b1 as int * 0x1_0000 + b2 as int * 0x100 + b3 as int
}

/// Appends the big-endian bytes of `x`.
pub fn push_be_u64(v: &mut Vec<u8>, x: u64)
    ensures
        final(v)@ == old(v)@ + be_u64(x),
{
    assert((x >> 56u64) as u8 == (x / 0x100_0000_0000_0000) as u8) by (bit_vector);
    assert((x >> 48u64) as u8 == ((x / 0x1_0000_0000_0000) % 256) as u8) by (bit_vector);
    assert((x >> 40u64) as u8 == ((x / 0x100_0000_0000) % 256) as u8) by (bit_vector);
    assert((x >> 32u64) as u8 == ((x / 0x1_0000_0000) % 256) as u8) by (bit_vector);
    assert((x >> 24u64) as u8 == ((x / 0x100_0000) % 256) as u8) by (bit_vector);
    assert((x >> 16u64) as u8 == ((x / 0x1_0000) % 256) as u8) by (bit_vector);
    assert((x >> 8u64) as u8 == ((x / 0x100) % 256) as u8) by (bit_vector);
    assert(x as u8 == (x % 256) as u8) by (bit_vector);
    v.push((x >> 56) as u8);
    v.push((x >> 48) as u8);
    v.push((x >> 40) as u8);
    v.push((x >> 32) as u8);
    v.push((x >> 24) as u8);
    v.push((x >> 16) as u8);
    v.push((x >> 8) as u8);
    v.push(x as u8);
    assert(final(v)@ =~= old(v)@ + be_u64(x));
}

/// Appends the big-endian bytes of `x`.
pub fn push_be_u32(v: &mut Vec<u8>, x: u32)
    ensures
        final(v)@ == old(v)@ + be_u32(x),
{
    assert((x >> 24u32) as u8 == (x / 0x100_0000) as u8) by (bit_vector);
    assert((x >> 16u32) as u8 == ((x / 0x1_0000) % 256) as u8) by (bit_vector);
    assert((x >> 8u32) as u8 == ((x / 0x100) % 256) as u8) by (bit_vector);
    assert(x as u8 == (x % 256) as u8) by (bit_vector);
    v.push((x >> 24) as u8);
    v.push((x >> 16) as u8);
    v.push((x >> 8) as u8);
    v.push(x as u8);
    assert(final(v)@ =~= old(v)@ + be_u32(x));
}

/// The lowercase hex digit of `d` (0 to 15).
pub open spec fn hex_digit(d: int) -> char {
    if d < 10 {
        (d + 48) as char
    } else {
        (d + 87) as char
    }
}

/// Two lowercase hex digits per byte, in order.
pub open spec fn spec_hex(bytes: Seq<u8>) -> Seq<char>
    decreases bytes.len(),
{
    if bytes.len() == 0 {
        Seq::empty()
    } else {
        spec_hex(bytes.drop_last()).push(hex_digit(bytes.last() as int / 16)).push(
            hex_digit(bytes.last() as int % 16),
        )
    }
}

fn hex_char(d: u8) -> (r: char)
    requires
        d < 16,
    ensures
        r == hex_digit(d as int),
{
    if d < 10 {
        (d + 48) as char
    } else {
        (d + 87) as char
    }
}

/// The bytes as lowercase hex, two digits each.
pub fn hex(bytes: &[u8]) -> (r: String)
    ensures
        r@ == spec_hex(bytes@),
{
    let mut out = String::new();
    let mut i: usize = 0;
    while i < bytes.len()
        invariant
            0 <= i <= bytes@.len(),
            out@ == spec_hex(bytes@.take(i as int)),
        decreases bytes@.len() - i,
    {
        let b = bytes[i];
        assert(bytes@.take(i + 1).drop_last() == bytes@.take(i as int));
        crate::text::push_char(&mut out, hex_char(b / 16));
        crate::text::push_char(&mut out, hex_char(b % 16));
        i = i + 1;
    }
    assert(bytes@.take(bytes@.len() as int) == bytes@);
    out
}

} // verus!
