//! Conversions between fixed-size byte groups and 16/32-bit integers.

use vstd::prelude::*;

verus! {

/// Byte order of a multi-byte field.
#[derive(Clone, Copy, Debug, PartialEq, Eq, Structural)]
pub enum Endian {
    Big,
    Little,
}

/// The unsigned value of two bytes, `lo` being the less significant.
pub open spec fn u16_value(lo: u8, hi: u8) -> nat {
    (lo as nat) + 256 * (hi as nat)
}

/// The unsigned value of four bytes, from least to most significant.
pub open spec fn u32_value(b0: u8, b1: u8, b2: u8, b3: u8) -> nat {
    (b0 as nat) + 256 * ((b1 as nat) + 256 * ((b2 as nat) + 256 * (b3 as nat)))
}

/// The two's-complement reading of a 16-bit unsigned value.
pub open spec fn signed16(u: nat) -> int {
    if u < 32768 {
        u as int
    } else {
        u - 65536
    }
}

/// What `b2u16` returns for `b` read in byte order `e`.
pub open spec fn u16_of(b: Seq<u8>, e: Endian) -> nat {
    match e {
        Endian::Little => u16_value(b[0], b[1]),
        Endian::Big => u16_value(b[1], b[0]),
    }
}

/// What `b2u32` returns for `b` read in byte order `e`.
pub open spec fn u32_of(b: Seq<u8>, e: Endian) -> nat {
    match e {
        Endian::Little => u32_value(b[0], b[1], b[2], b[3]),
        Endian::Big => u32_value(b[3], b[2], b[1], b[0]),
    }
}

/// Reads two bytes as an unsigned 16-bit integer.
pub fn b2u16(buffer: [u8; 2], endian: Endian) -> (r: u16)
    ensures
        r as nat == u16_of(buffer@, endian),
{
    let (lo, hi) = match endian {
        Endian::Little => (buffer[0], buffer[1]),
        Endian::Big => (buffer[1], buffer[0]),
    };
    (lo as u16) + 256 * (hi as u16)
}

/// Reads four bytes as an unsigned 32-bit integer.
pub fn b2u32(buffer: [u8; 4], endian: Endian) -> (r: u32)
    ensures
        r as nat == u32_of(buffer@, endian),
{
    let (b0, b1, b2, b3) = match endian {
        Endian::Little => (buffer[0], buffer[1], buffer[2], buffer[3]),
        Endian::Big => (buffer[3], buffer[2], buffer[1], buffer[0]),
    };
    (b0 as u32) + 256 * ((b1 as u32) + 256 * ((b2 as u32) + 256 * (b3 as u32)))
}

/// Reads two bytes as a two's-complement signed 16-bit integer.
pub fn b2i16(buffer: [u8; 2], endian: Endian) -> (r: i16)
    ensures
        r as int == signed16(u16_of(buffer@, endian)),
{
    let u = b2u16(buffer, endian);
    if u < 32768 {
        u as i16
    } else {
        ((u as i32) - 65536) as i16
    }
}

/// Writes an unsigned 16-bit integer as two bytes.
pub fn u16_to_bytes(v: u16, endian: Endian) -> (r: [u8; 2])
    ensures
        r@ == u16_bytes(v as nat, endian),
{
    let lo = (v % 256) as u8;
    let hi = (v / 256) as u8;
    let r = match endian {
        Endian::Little => [lo, hi],
        Endian::Big => [hi, lo],
    };
    assert(r@ =~= u16_bytes(v as nat, endian));
    r
}

/// The bytes of `v` taken modulo 2^16, in byte order `e`.
pub open spec fn u16_bytes(v: nat, e: Endian) -> Seq<u8> {
    let lo = (v % 256) as u8;
    let hi = (v / 256 % 256) as u8;
    match e {
        Endian::Little => seq![lo, hi],
        Endian::Big => seq![hi, lo],
    }
}

/// The bytes of `v` taken modulo 2^32, in byte order `e`.
pub open spec fn u32_bytes(v: nat, e: Endian) -> Seq<u8> {
    let b0 = (v % 256) as u8;
    let b1 = (v / 256 % 256) as u8;
    let b2 = (v / 65536 % 256) as u8;
    let b3 = (v / 16777216 % 256) as u8;
    match e {
        Endian::Little => seq![b0, b1, b2, b3],
        Endian::Big => seq![b3, b2, b1, b0],
    }
}

/// The unsigned 16-bit pattern that holds a signed 16-bit value.
pub open spec fn unsigned16(s: int) -> nat {
    if s >= 0 {
        s as nat
    } else {
        (s + 65536) as nat
    }
}

/// Reading back the bytes of a 16-bit value gives the value.
pub proof fn lemma_u16_round_trip(v: nat, e: Endian)
    requires
        v < 65536,
    ensures
        u16_bytes(v, e).len() == 2,
        u16_of(u16_bytes(v, e), e) == v,
{
}

/// Reading back the bytes of a 32-bit value gives the value.
pub proof fn lemma_u32_round_trip(v: nat, e: Endian)
    requires
        v < 4294967296,
    ensures
        u32_bytes(v, e).len() == 4,
        u32_of(u32_bytes(v, e), e) == v,
{
}

/// Reading back the bytes of a signed 16-bit value gives the value.
pub proof fn lemma_i16_round_trip(s: i16, e: Endian)
    ensures
        u16_bytes(unsigned16(s as int), e).len() == 2,
        signed16(u16_of(u16_bytes(unsigned16(s as int), e), e)) == s as int,
{
    lemma_u16_round_trip(unsigned16(s as int), e);
}

/// Writes an unsigned 32-bit integer as four bytes.
pub fn u32_to_bytes(v: u32, endian: Endian) -> (r: [u8; 4])
    ensures
        r@ == u32_bytes(v as nat, endian),
{
    let b0 = (v % 256) as u8;
    let b1 = (v / 256 % 256) as u8;
    let b2 = (v / 65536 % 256) as u8;
    let b3 = (v / 16777216 % 256) as u8;
    let r = match endian {
        Endian::Little => [b0, b1, b2, b3],
        Endian::Big => [b3, b2, b1, b0],
    };
    assert(r@ =~= u32_bytes(v as nat, endian));
    r
}

/// Writes a signed 16-bit integer as two bytes in two's complement.
pub fn i16_to_bytes(v: i16, endian: Endian) -> (r: [u8; 2])
    ensures
        r@ == u16_bytes(unsigned16(v as int), endian),
{
    let u: u16 = if v >= 0 {
        v as u16
    } else {
        ((v as i32) + 65536) as u16
    };
    u16_to_bytes(u, endian)
}

} // verus!
