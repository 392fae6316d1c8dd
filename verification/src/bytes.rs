//! Little-endian views of byte sequences, and the sign conversions used by the
//! wire format.
//!
//! Every multi-byte scalar of the format is little-endian. 32-bit floats are
//! carried as their raw IEEE-754 bit patterns (`u32`), so the byte-level
//! meaning of a float field is exactly that of a `u32` field.

use vstd::prelude::*;

verus! {

/// Little-endian value of two bytes.
pub open spec fn u16_of(b0: u8, b1: u8) -> u16 {
    (b0 + b1 * 0x100) as u16
}

/// Little-endian value of four bytes.
pub open spec fn u32_of(b0: u8, b1: u8, b2: u8, b3: u8) -> u32 {
    (b0 + b1 * 0x100 + b2 * 0x1_0000 + b3 * 0x100_0000) as u32
}

/// The `u16` stored little-endian at offset `p` of `b`.
pub open spec fn u16_at(b: Seq<u8>, p: int) -> u16 {
    u16_of(b[p], b[p + 1])
}

/// The `u32` stored little-endian at offset `p` of `b`.
pub open spec fn u32_at(b: Seq<u8>, p: int) -> u32 {
    u32_of(b[p], b[p + 1], b[p + 2], b[p + 3])
}

/// Two's-complement reading of a byte.
pub open spec fn i8_of_bits(x: u8) -> i8 {
    if x < 0x80 {
        x as i8
    } else {
        (x - 0x100) as i8
    }
}

/// Two's-complement reading of a 16-bit pattern.
pub open spec fn i16_of_bits(x: u16) -> i16 {
    if x < 0x8000 {
        x as i16
    } else {
        (x - 0x1_0000) as i16
    }
}

/// Two's-complement reading of a 32-bit pattern.
pub open spec fn i32_of_bits(x: u32) -> i32 {
    if x < 0x8000_0000 {
        x as i32
    } else {
        (x - 0x1_0000_0000) as i32
    }
}

/// The bit pattern of a signed byte.
pub open spec fn bits_of_i8(x: i8) -> u8 {
    if x >= 0 {
        x as u8
    } else {
        (x + 0x100) as u8
    }
}

/// The bit pattern of a signed 16-bit integer.
pub open spec fn bits_of_i16(x: i16) -> u16 {
    if x >= 0 {
        x as u16
    } else {
        (x + 0x1_0000) as u16
    }
}

/// The bit pattern of a signed 32-bit integer.
pub open spec fn bits_of_i32(x: i32) -> u32 {
    if x >= 0 {
        x as u32
    } else {
        (x + 0x1_0000_0000) as u32
    }
}

/// The `i16` stored little-endian at offset `p` of `b`.
pub open spec fn i16_at(b: Seq<u8>, p: int) -> i16 {
    i16_of_bits(u16_at(b, p))
}

/// The `i32` stored little-endian at offset `p` of `b`.
pub open spec fn i32_at(b: Seq<u8>, p: int) -> i32 {
    i32_of_bits(u32_at(b, p))
}

/// The `i8` stored at offset `p` of `b`.
pub open spec fn i8_at(b: Seq<u8>, p: int) -> i8 {
    i8_of_bits(b[p])
}

/// Little-endian bytes of a `u16`.
pub open spec fn le16(x: u16) -> Seq<u8> {
    seq![(x % 0x100) as u8, (x / 0x100) as u8]
}

/// Little-endian bytes of a `u32`.
pub open spec fn le32(x: u32) -> Seq<u8> {
    seq![
        (x % 0x100) as u8,
        ((x / 0x100) % 0x100) as u8,
        ((x / 0x1_0000) % 0x100) as u8,
        (x / 0x100_0000) as u8,
    ]
}

/// Little-endian bytes of an `i16`.
pub open spec fn le16i(x: i16) -> Seq<u8> {
    le16(bits_of_i16(x))
}

/// Little-endian bytes of an `i32`.
pub open spec fn le32i(x: i32) -> Seq<u8> {
    le32(bits_of_i32(x))
}

/// Reading back the little-endian bytes of a `u16` gives the value.
pub proof fn lemma_u16_le_roundtrip(x: u16)
    ensures
        u16_of(le16(x)[0], le16(x)[1]) == x,
{
    assert(u16_of((x % 0x100) as u8, (x / 0x100) as u8) == x) by (nonlinear_arith);
}

/// The little-endian bytes of a two-byte value are those bytes.
pub proof fn lemma_le16_of_bytes(b0: u8, b1: u8)
    ensures
        le16(u16_of(b0, b1)) =~= seq![b0, b1],
{
    assert(u16_of(b0, b1) % 0x100 == b0) by (nonlinear_arith);
    assert(u16_of(b0, b1) / 0x100 == b1) by (nonlinear_arith);
}

/// Reading back the little-endian bytes of a `u32` gives the value.
pub proof fn lemma_u32_le_roundtrip(x: u32)
    ensures
        u32_of(le32(x)[0], le32(x)[1], le32(x)[2], le32(x)[3]) == x,
{
    assert(u32_of(
        (x % 0x100) as u8,
        ((x / 0x100) % 0x100) as u8,
        ((x / 0x1_0000) % 0x100) as u8,
        (x / 0x100_0000) as u8,
    ) == x) by (nonlinear_arith);
}

/// The little-endian bytes of a four-byte value are those bytes.
pub proof fn lemma_le32_of_bytes(b0: u8, b1: u8, b2: u8, b3: u8)
    ensures
        le32(u32_of(b0, b1, b2, b3)) =~= seq![b0, b1, b2, b3],
{
    let x = u32_of(b0, b1, b2, b3) as int;
    let t1 = b1 + b2 * 0x100 + b3 * 0x1_0000;
    let t2 = b2 + b3 * 0x100;
    assert(x == 0x100 * t1 + b0);
    vstd::arithmetic::div_mod::lemma_mod_multiples_vanish(t1, b0 as int, 0x100);
    vstd::arithmetic::div_mod::lemma_small_mod(b0 as nat, 0x100);
    assert(x % 0x100 == b0);
    vstd::arithmetic::div_mod::lemma_div_multiples_vanish_fancy(t1, b0 as int, 0x100);
    assert(x / 0x100 == t1);
    assert(t1 == 0x100 * t2 + b1);
    vstd::arithmetic::div_mod::lemma_mod_multiples_vanish(t2, b1 as int, 0x100);
    vstd::arithmetic::div_mod::lemma_small_mod(b1 as nat, 0x100);
    assert((x / 0x100) % 0x100 == b1);
    vstd::arithmetic::div_mod::lemma_div_denominator(x, 0x100, 0x100);
    vstd::arithmetic::div_mod::lemma_div_multiples_vanish_fancy(t2, b1 as int, 0x100);
    assert(x / 0x1_0000 == t2);
    assert(t2 == 0x100 * (b3 as int) + b2);
    vstd::arithmetic::div_mod::lemma_mod_multiples_vanish(b3 as int, b2 as int, 0x100);
    vstd::arithmetic::div_mod::lemma_small_mod(b2 as nat, 0x100);
    assert((x / 0x1_0000) % 0x100 == b2);
    vstd::arithmetic::div_mod::lemma_div_denominator(x, 0x1_0000, 0x100);
    vstd::arithmetic::div_mod::lemma_div_multiples_vanish_fancy(b3 as int, b2 as int, 0x100);
    assert(x / 0x100_0000 == b3);
}

/// The sign conversions invert each other (signed to bits and back).
pub proof fn lemma_signed_bits_roundtrip(x8: i8, x16: i16, x32: i32)
    ensures
        i8_of_bits(bits_of_i8(x8)) == x8,
        i16_of_bits(bits_of_i16(x16)) == x16,
        i32_of_bits(bits_of_i32(x32)) == x32,
{
}

/// The sign conversions invert each other (bits to signed and back).
pub proof fn lemma_bits_signed_roundtrip(b8: u8, b16: u16, b32: u32)
    ensures
        bits_of_i8(i8_of_bits(b8)) == b8,
        bits_of_i16(i16_of_bits(b16)) == b16,
        bits_of_i32(i32_of_bits(b32)) == b32,
{
}

/// If the bytes at `p` of `b` agree with an encoding `e` that carries
/// `le32(x)` at offset `o`, the `u32` read back at `p + o` is `x`.
pub proof fn lemma_field_le32(x: u32, e: Seq<u8>, o: int, b: Seq<u8>, p: int)
    requires
        0 <= o,
        o + 4 <= e.len(),
        0 <= p,
        p + e.len() <= b.len(),
        forall|j: int| 0 <= j < e.len() ==> b[p + j] == e[j],
        e[o] == le32(x)[0],
        e[o + 1] == le32(x)[1],
        e[o + 2] == le32(x)[2],
        e[o + 3] == le32(x)[3],
    ensures
        u32_at(b, p + o) == x,
{
    lemma_u32_le_roundtrip(x);
    assert(u32_of(b[p + o], b[p + o + 1], b[p + o + 2], b[p + o + 3]) == x);
}

/// As [`lemma_field_le32`], for a signed field carried as `le32i(x)`.
pub proof fn lemma_field_le32i(x: i32, e: Seq<u8>, o: int, b: Seq<u8>, p: int)
    requires
        0 <= o,
        o + 4 <= e.len(),
        0 <= p,
        p + e.len() <= b.len(),
        forall|j: int| 0 <= j < e.len() ==> b[p + j] == e[j],
        e[o] == le32i(x)[0],
        e[o + 1] == le32i(x)[1],
        e[o + 2] == le32i(x)[2],
        e[o + 3] == le32i(x)[3],
    ensures
        i32_at(b, p + o) == x,
{
    lemma_field_le32(bits_of_i32(x), e, o, b, p);
    lemma_signed_bits_roundtrip(0, 0, x);
}

/// As [`lemma_field_le32`], for a two-byte field carried as `le16(x)`.
pub proof fn lemma_field_le16(x: u16, e: Seq<u8>, o: int, b: Seq<u8>, p: int)
    requires
        0 <= o,
        o + 2 <= e.len(),
        0 <= p,
        p + e.len() <= b.len(),
        forall|j: int| 0 <= j < e.len() ==> b[p + j] == e[j],
        e[o] == le16(x)[0],
        e[o + 1] == le16(x)[1],
    ensures
        u16_at(b, p + o) == x,
{
    lemma_u16_le_roundtrip(x);
    assert(u16_of(b[p + o], b[p + o + 1]) == x);
}

/// As [`lemma_field_le16`], for a signed field carried as `le16i(x)`.
pub proof fn lemma_field_le16i(x: i16, e: Seq<u8>, o: int, b: Seq<u8>, p: int)
    requires
        0 <= o,
        o + 2 <= e.len(),
        0 <= p,
        p + e.len() <= b.len(),
        forall|j: int| 0 <= j < e.len() ==> b[p + j] == e[j],
        e[o] == le16i(x)[0],
        e[o + 1] == le16i(x)[1],
    ensures
        i16_at(b, p + o) == x,
{
    lemma_field_le16(bits_of_i16(x), e, o, b, p);
    lemma_signed_bits_roundtrip(0, x, 0);
}

/// As [`lemma_field_le32`], for a signed byte carried as `bits_of_i8(x)`.
pub proof fn lemma_field_i8(x: i8, e: Seq<u8>, o: int, b: Seq<u8>, p: int)
    requires
        0 <= o,
        o < e.len(),
        0 <= p,
        p + e.len() <= b.len(),
        forall|j: int| 0 <= j < e.len() ==> b[p + j] == e[j],
        e[o] == bits_of_i8(x),
    ensures
        i8_at(b, p + o) == x,
{
    lemma_signed_bits_roundtrip(x, 0, 0);
}

/// Re-encoding the `u32` read at `p` gives back its four bytes.
pub proof fn lemma_reencode_u32(b: Seq<u8>, p: int)
    requires
        0 <= p,
        p + 4 <= b.len(),
    ensures
        le32(u32_at(b, p)) == seq![b[p], b[p + 1], b[p + 2], b[p + 3]],
{
    lemma_le32_of_bytes(b[p], b[p + 1], b[p + 2], b[p + 3]);
}

/// Re-encoding the `i32` read at `p` gives back its four bytes.
pub proof fn lemma_reencode_i32(b: Seq<u8>, p: int)
    requires
        0 <= p,
        p + 4 <= b.len(),
    ensures
        le32i(i32_at(b, p)) == seq![b[p], b[p + 1], b[p + 2], b[p + 3]],
{
    lemma_bits_signed_roundtrip(0, 0, u32_at(b, p));
    lemma_le32_of_bytes(b[p], b[p + 1], b[p + 2], b[p + 3]);
}

/// Re-encoding the `u16` read at `p` gives back its two bytes.
pub proof fn lemma_reencode_u16(b: Seq<u8>, p: int)
    requires
        0 <= p,
        p + 2 <= b.len(),
    ensures
        le16(u16_at(b, p)) == seq![b[p], b[p + 1]],
{
    lemma_le16_of_bytes(b[p], b[p + 1]);
}

/// Re-encoding the `i16` read at `p` gives back its two bytes.
pub proof fn lemma_reencode_i16(b: Seq<u8>, p: int)
    requires
        0 <= p,
        p + 2 <= b.len(),
    ensures
        le16i(i16_at(b, p)) == seq![b[p], b[p + 1]],
{
    lemma_bits_signed_roundtrip(0, u16_at(b, p), 0);
    lemma_le16_of_bytes(b[p], b[p + 1]);
}

/// Re-encoding the signed byte read at `p` gives back that byte.
pub proof fn lemma_reencode_i8(b: Seq<u8>, p: int)
    requires
        0 <= p,
        p < b.len(),
    ensures
        bits_of_i8(i8_at(b, p)) == b[p],
{
    lemma_bits_signed_roundtrip(b[p], 0, 0);
}

} // verus!
